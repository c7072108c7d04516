//! The model sidecars: how they are launched, where they log, and how orphans are found.

use crate::text::decimal_of;
use crate::text::join_from;
use crate::text::split_lines;
use vstd::prelude::*;

verus! {

/// How many lines of a log are shown.
pub const LOG_LINES: usize = 8;

/// How a sidecar is launched: its program, its arguments, the directory it runs in, the name of
/// its log, and its own name.
#[derive(Debug)]
pub struct Sidecar {
    pub program: String,
    pub args: Vec<String>,
    pub dir: String,
    pub log: &'static str,
    pub name: &'static str,
}

/// A launch as a mathematical value.
#[verifier::ext_equal]
pub struct LaunchView {
    pub program: Seq<char>,
    pub args: Seq<Seq<char>>,
    pub dir: Seq<char>,
    pub log: Seq<char>,
    pub name: Seq<char>,
}

impl View for Sidecar {
    type V = LaunchView;

    open spec fn view(&self) -> LaunchView {
        LaunchView {
            program: self.program@,
            args: crate::text::texts(self.args@),
            dir: self.dir@,
            log: self.log@,
            name: self.name@,
        }
    }
}

/// Two texts one after the other.
fn cat(a: &str, b: &str) -> (text: String)
    ensures
        text@ == a@ + b@,
{
    let mut text = a.to_string();
    text.append(b);
    text
}

/// Where a log lives.
pub open spec fn log_file(log: Seq<char>) -> Seq<char> {
    "/tmp/hearsay-"@ + log + ".log"@
}

/// The last lines of a log.
pub open spec fn tail_of(contents: Seq<char>) -> Seq<char> {
    let lines = crate::text::lines_of(contents);
    crate::text::joined(
        if lines.len() > LOG_LINES {
            lines.skip(lines.len() - LOG_LINES)
        } else {
            lines
        },
        "\n"@,
    )
}

impl Sidecar {
    /// The Kokoro speech sidecar, bound to `sock`.
    pub fn kokoro(repo_root: &str, sock: &str, voice: &str) -> (sidecar: Self)
        ensures
            sidecar@ == (LaunchView {
                program: repo_root@ + "/sidecars/.venv/bin/python"@,
                args: seq![repo_root@ + "/sidecars/kokoro_server.py"@, sock@, voice@],
                dir: repo_root@,
                log: "kokoro"@,
                name: "kokoro-tts"@,
            }),
    {
        let mut args: Vec<String> = Vec::new();
        args.push(cat(repo_root, "/sidecars/kokoro_server.py"));
        args.push(sock.to_string());
        args.push(voice.to_string());
        let sidecar = Sidecar {
            program: cat(repo_root, "/sidecars/.venv/bin/python"),
            args,
            dir: repo_root.to_string(),
            log: "kokoro",
            name: "kokoro-tts",
        };
        assert(sidecar@.args =~= seq![
            repo_root@ + "/sidecars/kokoro_server.py"@,
            sock@,
            voice@,
        ]);
        sidecar
    }

    /// The MisoTTS speech sidecar ("highest quality, not real-time"), bound to `sock`.
    pub fn miso(repo_root: &str, sock: &str, speaker: &str) -> (sidecar: Self)
        ensures
            sidecar@ == (LaunchView {
                program: repo_root@ + "/vendor/MisoTTS/.venv/bin/python"@,
                args: seq![repo_root@ + "/sidecars/miso_server.py"@, sock@, speaker@],
                dir: repo_root@,
                log: "miso"@,
                name: "miso-tts"@,
            }),
    {
        let mut args: Vec<String> = Vec::new();
        args.push(cat(repo_root, "/sidecars/miso_server.py"));
        args.push(sock.to_string());
        args.push(speaker.to_string());
        let sidecar = Sidecar {
            program: cat(repo_root, "/vendor/MisoTTS/.venv/bin/python"),
            args,
            dir: repo_root.to_string(),
            log: "miso",
            name: "miso-tts",
        };
        assert(sidecar@.args =~= seq![
            repo_root@ + "/sidecars/miso_server.py"@,
            sock@,
            speaker@,
        ]);
        sidecar
    }

    /// The language model behind its watchdog wrapper, serving on 127.0.0.1 at `port`.
    pub fn mlx_llm(repo_root: &str, model: &str, port: u16) -> (sidecar: Self)
        ensures
            sidecar@ == (LaunchView {
                program: repo_root@ + "/sidecars/.venv/bin/python"@,
                args: seq![
                    repo_root@ + "/sidecars/llm_server.py"@,
                    "--model"@,
                    model@,
                    "--port"@,
                    crate::text::decimal(port as nat),
                    "--host"@,
                    "127.0.0.1"@,
                    "--log-level"@,
                    "WARNING"@,
                ],
                dir: repo_root@,
                log: "llm"@,
                name: "mlx-llm"@,
            }),
    {
        let mut args: Vec<String> = Vec::new();
        args.push(cat(repo_root, "/sidecars/llm_server.py"));
        args.push("--model".to_string());
        args.push(model.to_string());
        args.push("--port".to_string());
        args.push(decimal_of(port as u64));
        args.push("--host".to_string());
        args.push("127.0.0.1".to_string());
        args.push("--log-level".to_string());
        args.push("WARNING".to_string());
        let sidecar = Sidecar {
            program: cat(repo_root, "/sidecars/.venv/bin/python"),
            args,
            dir: repo_root.to_string(),
            log: "llm",
            name: "mlx-llm",
        };
        assert(sidecar@.args =~= seq![
            repo_root@ + "/sidecars/llm_server.py"@,
            "--model"@,
            model@,
            "--port"@,
            crate::text::decimal(port as nat),
            "--host"@,
            "127.0.0.1"@,
            "--log-level"@,
            "WARNING"@,
        ]);
        sidecar
    }

    /// Where the sidecar's output goes.
    pub fn log_path(&self) -> (path: String)
        ensures
            path@ == log_file(self.log@),
    {
        cat(cat("/tmp/hearsay-", self.log).as_str(), ".log")
    }

    /// The last few lines of this sidecar's log, for surfacing a failure to the user; `log` is
    /// the log's contents, if it can be read.
    pub fn log_tail(&self, log: Option<&str>) -> (tail: String)
        ensures
            tail@ == match log {
                Some(contents) => tail_of(contents@),
                None => "(no log at "@ + log_file(self.log@) + ")"@,
            },
    {
        match log {
            Some(contents) => {
                let lines = split_lines(contents);
                let start: usize = lines.len().saturating_sub(LOG_LINES);
                let ghost all = crate::text::lines_of(contents@);
                assert(all.len() == lines@.len()) by {
                    assert(crate::text::texts(lines@).len() == lines@.len());
                }
                assert(all.skip(0) =~= all);
                join_from(&lines, start, "\n")
            },
            None => cat(cat("(no log at ", self.log_path().as_str()).as_str(), ")"),
        }
    }
}

/// A search path with the usual spots that a launched program may be missing, so that a
/// sidecar's own subprocesses resolve however it was started.
pub fn sane_path(home: &str, inherited: &str) -> (path: String)
    ensures
        path@ == home@ + "/.local/bin:/opt/homebrew/bin:/usr/local/bin:/usr/bin:/bin:"@
            + inherited@,
{
    cat(
        cat(home, "/.local/bin:/opt/homebrew/bin:/usr/local/bin:/usr/bin:/bin:").as_str(),
        inherited,
    )
}

/// The command lines by which orphaned sidecars are found. They are paths of this program, so
/// nothing unrelated matches.
pub fn stale_patterns() -> (patterns: Vec<&'static str>)
    ensures
        patterns@.len() == 4,
        patterns@[0]@ == "sidecars/kokoro_server.py"@,
        patterns@[1]@ == "sidecars/miso_server.py"@,
        patterns@[2]@ == "sidecars/llm_server.py"@,
        patterns@[3]@ == "sidecars/.venv/bin/mlx_lm.server"@,
{
    let mut patterns: Vec<&'static str> = Vec::new();
    patterns.push("sidecars/kokoro_server.py");
    patterns.push("sidecars/miso_server.py");
    patterns.push("sidecars/llm_server.py");
    patterns.push("sidecars/.venv/bin/mlx_lm.server");
    patterns
}

/// A log's tail is its last eight lines, or all of them if there are fewer, in order and with a
/// line feed between two.
pub proof fn law_tail_is_the_last_lines(contents: Seq<char>)
    ensures
        ({
            let lines = crate::text::lines_of(contents);
            &&& lines.len() <= 8 ==> tail_of(contents) == crate::text::joined(lines, seq!['\n'])
            &&& lines.len() > 8 ==> tail_of(contents) == crate::text::joined(
                lines.subrange(lines.len() - 8, lines.len() as int),
                seq!['\n'],
            )
        }),
{
    reveal_strlit("\n");
    assert("\n"@ =~= seq!['\n']);
    let lines = crate::text::lines_of(contents);
    if lines.len() > 8 {
        assert(lines.skip(lines.len() - 8) =~= lines.subrange(
            lines.len() - 8,
            lines.len() as int,
        ));
    }
}

/// Each log has a file of its own name.
pub proof fn law_logs_have_their_files(log: Seq<char>)
    ensures
        log_file(log) == "/tmp/hearsay-"@ + log + ".log"@,
{
}

} // verus!
