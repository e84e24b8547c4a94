//! Shell integration: which shells get prompt/command markers, the scripts
//! that emit them, and quoting for fish.
use vstd::prelude::*;
use crate::text::{chars_of, join_path, path_join, push_char, push_str, string_from_chars};

verus! {

/// A shell that supports the integration scripts.
#[derive(Clone, Copy, Debug, PartialEq, Eq, Structural)]
pub enum ShellKind {
    Bash,
    Zsh,
    Fish,
}

/// The final component of a Unix path, when it is a normal name.
pub uninterp spec fn path_file_name(path: Seq<char>) -> Option<Seq<char>>;

/// The file name of a Unix path.
///
/// Wraps `Path::file_name` (with `to_string_lossy`, lossless for text that
/// came from a `&str`): the final component when it is a normal name, none
/// for a path that ends in `..`, for `/` and for the empty path. The result
/// is a function of the path alone.
#[verifier::external_body]
pub(crate) fn file_name_of(path: &str) -> (r: Option<String>)
    ensures
        r matches Some(n) ==> path_file_name(path@) == Some(n@),
        r is None ==> path_file_name(path@) is None,
{
    std::path::Path::new(path).file_name().map(|n| n.to_string_lossy().into_owned())
}

/// The shell named `name` (a login shell's leading `-` ignored).
pub open spec fn spec_kind_of_name(name: Seq<char>) -> Option<ShellKind> {
    let n = if name.len() > 0 && name[0] == '-' {
        name.skip(1)
    } else {
        name
    };
    if n == "bash"@ {
        Some(ShellKind::Bash)
    } else if n == "zsh"@ {
        Some(ShellKind::Zsh)
    } else if n == "fish"@ {
        Some(ShellKind::Fish)
    } else {
        None
    }
}

impl ShellKind {
    /// The shell whose executable file is named `name`.
    pub fn from_file_name(name: &str) -> (r: Option<ShellKind>)
        ensures
            r == spec_kind_of_name(name@),
    {
        let v = chars_of(name);
        let n = if v.len() > 0 && v[0] == '-' {
            string_from_chars(&crate::text::vec_slice(&v, 1, v.len()))
        } else {
            name.to_owned()
        };
        assert(v.len() > 0 && v@[0] == '-' ==> v@.subrange(1, v@.len() as int) =~= name@.skip(1));
        if n == "bash".to_owned() {
            Some(ShellKind::Bash)
        } else if n == "zsh".to_owned() {
            Some(ShellKind::Zsh)
        } else if n == "fish".to_owned() {
            Some(ShellKind::Fish)
        } else {
            None
        }
    }

    /// The shell run by the executable at `path`.
    pub fn from_path(path: &str) -> (r: Option<ShellKind>)
        ensures
            r == match path_file_name(path@) {
                Some(n) => spec_kind_of_name(n),
                None => None,
            },
    {
        match file_name_of(path) {
            Some(n) => ShellKind::from_file_name(n.as_str()),
            None => None,
        }
    }
}

/// The text of the zsh rc file.
pub const ZSH_SCRIPT: &'static str = r#"
if [[ -n "${VRYN_ORIGINAL_ZDOTDIR:-}" && -r "${VRYN_ORIGINAL_ZDOTDIR}/.zshrc" ]]; then
  source "${VRYN_ORIGINAL_ZDOTDIR}/.zshrc"
fi

__vryn_osc() {
  builtin printf '\033]777;vryn;%s;%s\a' "$1" "$2"
}

__vryn_prompt_start() {
  __vryn_osc A "$PWD"
}

__vryn_preexec() {
  __VRYN_COMMAND_RUNNING=1
  __vryn_osc B "$1"
  __vryn_osc C ""
}

__vryn_precmd() {
  local exit_code="$?"
  if [[ -n "${__VRYN_COMMAND_RUNNING:-}" ]]; then
    __vryn_osc D "$exit_code"
    unset __VRYN_COMMAND_RUNNING
  fi
  __vryn_prompt_start
}

autoload -Uz add-zsh-hook
add-zsh-hook preexec __vryn_preexec
add-zsh-hook precmd __vryn_precmd
"#;

/// The zsh rc file: sources the user's own `.zshrc`, then reports prompt
/// start, command start/output and exit code through OSC 777 sequences.
pub fn zsh_script() -> (r: &'static str)
    ensures
        r@ == ZSH_SCRIPT@,
{
    ZSH_SCRIPT
}

/// The text of the bash rc file.
pub const BASH_SCRIPT: &'static str = r#"
if [[ -n "${VRYN_ORIGINAL_BASHRC:-}" && -r "${VRYN_ORIGINAL_BASHRC}" ]]; then
  source "${VRYN_ORIGINAL_BASHRC}"
fi

__vryn_osc() {
  printf '\033]777;vryn;%s;%s\a' "$1" "$2"
}

__vryn_last_command="$(fc -ln -1 2>/dev/null || true)"
__vryn_original_prompt_command="${PROMPT_COMMAND:-}"

__vryn_prompt_command() {
  local status="$?"
  local command
  command="$(fc -ln -1 2>/dev/null || true)"
  if [[ -n "${command//[[:space:]]/}" && "$command" != "$__vryn_last_command" ]]; then
    __vryn_osc B "$command"
    __vryn_osc C ""
    __vryn_osc D "$status"
    __vryn_last_command="$command"
  fi
  __vryn_osc A "$PWD"
  if [[ -n "$__vryn_original_prompt_command" ]]; then
    eval "$__vryn_original_prompt_command"
  fi
}

PROMPT_COMMAND=__vryn_prompt_command
"#;

/// The bash rc file: sources the user's `.bashrc`, then reports each command
/// and its exit status from `PROMPT_COMMAND`.
pub fn bash_script() -> (r: &'static str)
    ensures
        r@ == BASH_SCRIPT@,
{
    BASH_SCRIPT
}

/// The text of the fish init script.
pub const FISH_SCRIPT: &'static str = r#"
function __vryn_osc
    printf '\e]777;vryn;%s;%s\a' $argv[1] $argv[2]
end

function __vryn_preexec --on-event fish_preexec
    set -g __vryn_command_running 1
    __vryn_osc B "$argv"
    __vryn_osc C ""
end

function __vryn_postexec --on-event fish_postexec
    set -l code $status
    if set -q __vryn_command_running
        __vryn_osc D "$code"
        set -e __vryn_command_running
    end
    __vryn_osc A "$PWD"
end

__vryn_osc A "$PWD"
"#;

/// The fish init script: reports commands and exit codes from the
/// `fish_preexec`/`fish_postexec` events.
pub fn fish_script() -> (r: &'static str)
    ensures
        r@ == FISH_SCRIPT@,
{
    FISH_SCRIPT
}

/// `s` with each backslash doubled and each `'` preceded by a backslash.
pub open spec fn fish_escape(s: Seq<char>) -> Seq<char>
    decreases s.len(),
{
    if s.len() == 0 {
        seq![]
    } else {
        let c = s.last();
        fish_escape(s.drop_last()) + if c == '\\' {
            seq!['\\', '\\']
        } else if c == '\'' {
            seq!['\\', '\'']
        } else {
            seq![c]
        }
    }
}

/// `value` as a single-quoted fish word.
pub fn fish_quote(value: &str) -> (r: String)
    ensures
        r@ == seq!['\''] + fish_escape(value@) + seq!['\''],
{
    let v = chars_of(value);
    let mut out = String::new();
    push_char(&mut out, '\'');
    let mut i: usize = 0;
    while i < v.len()
        invariant
            i <= v@.len(),
            v@ == value@,
            out@ == seq!['\''] + fish_escape(v@.take(i as int)),
        decreases v.len() - i,
    {
        let c = v[i];
        if c == '\\' {
            push_char(&mut out, '\\');
            push_char(&mut out, '\\');
        } else if c == '\'' {
            push_char(&mut out, '\\');
            push_char(&mut out, '\'');
        } else {
            push_char(&mut out, c);
        }
        assert(v@.take(i + 1).drop_last() =~= v@.take(i as int));
        assert(out@ =~= seq!['\''] + fish_escape(v@.take(i + 1)));
        i += 1;
    }
    push_char(&mut out, '\'');
    assert(v@.take(v@.len() as int) =~= v@);
    out
}

/// How a shell with the integration script is started: the script to write
/// first (where, and for which shell, after creating `dirs`), then the
/// program with its arguments and extra environment, in `cwd`.
#[derive(Clone, Debug)]
pub struct ShellLaunch {
    pub kind: ShellKind,
    pub dirs: Vec<String>,
    pub script_path: String,
    pub program: String,
    pub args: Vec<String>,
    pub env: Vec<(String, String)>,
    pub cwd: String,
}

/// A `ShellLaunch` as plain values.
pub struct LaunchView {
    pub kind: ShellKind,
    pub dirs: Seq<Seq<char>>,
    pub script_path: Seq<char>,
    pub program: Seq<char>,
    pub args: Seq<Seq<char>>,
    pub env: Seq<(Seq<char>, Seq<char>)>,
    pub cwd: Seq<char>,
}

impl View for ShellLaunch {
    type V = LaunchView;

    open spec fn view(&self) -> LaunchView {
        LaunchView {
            kind: self.kind,
            dirs: self.dirs@.map_values(|d: String| d@),
            script_path: self.script_path@,
            program: self.program@,
            args: self.args@.map_values(|a: String| a@),
            env: self.env@.map_values(|e: (String, String)| (e.0@, e.1@)),
            cwd: self.cwd@,
        }
    }
}

/// How the shell at `shell_path` is started in `cwd` with its script under
/// `dir`: zsh reads `dir/zsh/.zshrc` through `ZDOTDIR` (the user's own
/// `ZDOTDIR`, else home, passed on); bash gets `--rcfile dir/bashrc -i`
/// (the user's `~/.bashrc` passed on); fish runs `source` of
/// `dir/fish-init.fish` as its init command. Other shells get none.
pub open spec fn spec_shell_launch(
    cwd: Seq<char>,
    shell_path: Seq<char>,
    dir: Seq<char>,
    zdotdir: Option<Seq<char>>,
    home: Option<Seq<char>>,
) -> Option<LaunchView> {
    let kind = match path_file_name(shell_path) {
        Some(n) => spec_kind_of_name(n),
        None => None,
    };
    match kind {
        None => None,
        Some(ShellKind::Zsh) => {
            let rc_dir = path_join(dir, "zsh"@);
            let original = match zdotdir {
                Some(z) => z,
                None => match home {
                    Some(h) => h,
                    None => seq![],
                },
            };
            Some(LaunchView {
                kind: ShellKind::Zsh,
                dirs: seq![dir, rc_dir],
                script_path: path_join(rc_dir, ".zshrc"@),
                program: shell_path,
                args: seq![],
                env: seq![("ZDOTDIR"@, rc_dir), ("VRYN_ORIGINAL_ZDOTDIR"@, original)],
                cwd,
            })
        },
        Some(ShellKind::Bash) => {
            let rcfile = path_join(dir, "bashrc"@);
            let original = match home {
                Some(h) => path_join(h, ".bashrc"@),
                None => seq![],
            };
            Some(LaunchView {
                kind: ShellKind::Bash,
                dirs: seq![dir],
                script_path: rcfile,
                program: shell_path,
                args: seq!["--rcfile"@, rcfile, "-i"@],
                env: seq![("VRYN_ORIGINAL_BASHRC"@, original)],
                cwd,
            })
        },
        Some(ShellKind::Fish) => {
            let script = path_join(dir, "fish-init.fish"@);
            Some(LaunchView {
                kind: ShellKind::Fish,
                dirs: seq![dir],
                script_path: script,
                program: shell_path,
                args: seq!["--init-command"@, "source "@ + seq!['\''] + fish_escape(script) + seq!['\'']],
                env: seq![],
                cwd,
            })
        },
    }
}

/// Plans how to start the shell at `shell_path` in `cwd` with its
/// integration script under `dir`; `zdotdir` and `home` are the user's
/// `ZDOTDIR` and `HOME`. `None` for a shell without a script.
pub fn shell_launch(
    cwd: &str,
    shell_path: &str,
    dir: &str,
    zdotdir: Option<&str>,
    home: Option<&str>,
) -> (r: Option<ShellLaunch>)
    ensures
        match (r, spec_shell_launch(
            cwd@,
            shell_path@,
            dir@,
            match zdotdir {
                Some(z) => Some(z@),
                None => None,
            },
            match home {
                Some(h) => Some(h@),
                None => None,
            },
        )) {
            (Some(l), Some(v)) => l@ == v,
            (None, None) => true,
            _ => false,
        },
{
    let kind = match ShellKind::from_path(shell_path) {
        Some(k) => k,
        None => return None,
    };
    match kind {
        ShellKind::Zsh => {
            let rc_dir = join_path(dir, "zsh");
            let script_path = join_path(rc_dir.as_str(), ".zshrc");
            let original = match zdotdir {
                Some(z) => z.to_owned(),
                None => match home {
                    Some(h) => h.to_owned(),
                    None => String::new(),
                },
            };
            let dirs = vec![dir.to_owned(), rc_dir.clone()];
            let args: Vec<String> = Vec::new();
            let env = vec![("ZDOTDIR".to_owned(), rc_dir), ("VRYN_ORIGINAL_ZDOTDIR".to_owned(), original)];
            let l = ShellLaunch {
                kind,
                dirs,
                script_path,
                program: shell_path.to_owned(),
                args,
                env,
                cwd: cwd.to_owned(),
            };
            assert(l@.dirs =~= seq![dir@, path_join(dir@, "zsh"@)]);
            assert(l@.args =~= Seq::<Seq<char>>::empty());
            assert(l@.env =~= seq![("ZDOTDIR"@, path_join(dir@, "zsh"@)), ("VRYN_ORIGINAL_ZDOTDIR"@, l.env@[1].1@)]);
            Some(l)
        },
        ShellKind::Bash => {
            let rcfile = join_path(dir, "bashrc");
            let original = match home {
                Some(h) => join_path(h, ".bashrc"),
                None => String::new(),
            };
            let dirs = vec![dir.to_owned()];
            let args = vec!["--rcfile".to_owned(), rcfile.clone(), "-i".to_owned()];
            let env = vec![("VRYN_ORIGINAL_BASHRC".to_owned(), original)];
            let l = ShellLaunch {
                kind,
                dirs,
                script_path: rcfile,
                program: shell_path.to_owned(),
                args,
                env,
                cwd: cwd.to_owned(),
            };
            assert(l@.dirs =~= seq![dir@]);
            assert(l@.args =~= seq!["--rcfile"@, path_join(dir@, "bashrc"@), "-i"@]);
            assert(l@.env =~= seq![("VRYN_ORIGINAL_BASHRC"@, l.env@[0].1@)]);
            Some(l)
        },
        ShellKind::Fish => {
            let script = join_path(dir, "fish-init.fish");
            let mut init = "source ".to_owned();
            let quoted = fish_quote(script.as_str());
            push_str(&mut init, quoted.as_str());
            assert(init@ =~= "source "@ + seq!['\''] + fish_escape(script@) + seq!['\'']);
            let dirs = vec![dir.to_owned()];
            let args = vec!["--init-command".to_owned(), init];
            let env: Vec<(String, String)> = Vec::new();
            let l = ShellLaunch {
                kind,
                dirs,
                script_path: script,
                program: shell_path.to_owned(),
                args,
                env,
                cwd: cwd.to_owned(),
            };
            assert(l@.dirs =~= seq![dir@]);
            assert(l@.args =~= seq!["--init-command"@, l.args@[1]@]);
            assert(l@.env =~= Seq::<(Seq<char>, Seq<char>)>::empty());
            Some(l)
        },
    }
}

} // verus!
