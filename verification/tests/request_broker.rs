use notmux::request_broker::RequestBroker;
use notmux::sidebar::SidebarRequest;

#[test]
fn requests_come_out_in_the_order_they_went_in() {
    let mut b: RequestBroker<&str> = RequestBroker::new();
    assert!(!b.has_overlay_requests());
    assert!(!b.has_sidebar_requests());
    b.push_overlay_request("context menu");
    b.push_overlay_request("file search");
    b.push_sidebar_request(SidebarRequest::RenameFolder { folder_id: "f".to_string(), folder_name: "F".to_string() });
    b.push_sidebar_request(SidebarRequest::QuickCreateWorktree { project_id: "p".to_string() });
    assert!(b.has_overlay_requests());
    assert!(b.has_sidebar_requests());
    assert_eq!(b.drain_overlay_requests(), vec!["context menu", "file search"]);
    assert!(!b.has_overlay_requests());
    assert!(b.has_sidebar_requests());
    let s = b.drain_sidebar_requests();
    assert_eq!(s.len(), 2);
    assert!(matches!(&s[0], SidebarRequest::RenameFolder { folder_id, .. } if folder_id == "f"));
    assert!(matches!(&s[1], SidebarRequest::QuickCreateWorktree { project_id } if project_id == "p"));
    assert!(b.drain_sidebar_requests().is_empty());
}
