//! Script extraction and embedding: the backtick-delimited, base64-encoded
//! command carried in the kernel boot parameters.

use vstd::prelude::*;

use base64::Engine;
use crate::strfind::{contains_seq, find_char, find_str, first_occurrence_from, occurs_at};
use vstd::utf8::{decode_utf8, encode_utf8, encode_utf8_decode_utf8, encode_utf8_valid_utf8,
    valid_utf8};

verus! {

/// The boot-parameter token that introduces an embedded command.
pub open spec fn exec_marker() -> Seq<char> {
    "virtme.exec=`"@
}

/// The boot-parameter token that introduces a vsock proxy command.
pub open spec fn vsock_marker() -> Seq<char> {
    "virtme.vsockexec=`"@
}

/// The backtick-delimited payload that follows the first occurrence of
/// `marker` in `s`: `None` when the marker is absent or no closing backtick
/// follows it.
pub open spec fn payload_after_marker(s: Seq<char>, marker: Seq<char>) -> Option<Seq<char>> {
    if contains_seq(s, marker) {
        let i = choose|i: int| first_occurrence_from(s, marker, 0, i);
        let start = i + marker.len();
        if exists|j: int| start <= j < s.len() && s[j] == '`' {
            let j = choose|j: int|
                start <= j < s.len() && s[j] == '`' && (forall|k: int|
                    start <= k < j ==> s[k] != '`');
            Some(s.subrange(start, j))
        } else {
            None
        }
    } else {
        None
    }
}

/// Two first occurrences are the same index.
proof fn lemma_first_occurrence_unique(s: Seq<char>, n: Seq<char>, i: int, j: int)
    requires
        first_occurrence_from(s, n, 0, i),
        first_occurrence_from(s, n, 0, j),
    ensures
        i == j,
{
}

/// What the base64 standard engine encodes a string to; a function of the
/// input characters alone.
pub uninterp spec fn b64_encoding_of(s: Seq<char>) -> Seq<char>;

/// What the base64 standard engine decodes a string to; a function of the
/// input characters alone, `None` on ill-formed base64.
pub uninterp spec fn b64_decoding_of(s: Seq<char>) -> Option<Seq<u8>>;

/// Relies on base64's `Engine::decode` with the `STANDARD` engine: the result
/// depends on the input characters alone and is `Ok` exactly on well-formed
/// standard base64.
#[verifier::external_body]
fn base64_decode(s: &str) -> (r: Option<Vec<u8>>)
    ensures
        match r {
            Some(v) => b64_decoding_of(s@) == Some(v@),
            None => b64_decoding_of(s@) is None,
        },
{
    base64::engine::general_purpose::STANDARD.decode(s).ok()
}

/// Relies on base64's `Engine::encode` with the `STANDARD` engine: the result
/// depends on the input bytes alone, is drawn from the standard alphabet of
/// RFC 4648 (letters, digits, `+`, `/`, padding `=` — never a backtick), and
/// `Engine::decode` of it yields the input bytes again. The length bound
/// keeps the encoder's output-size computation from overflowing.
#[verifier::external_body]
fn base64_encode(s: &str) -> (r: String)
    requires
        s@.len() < 0x4000_0000,
    ensures
        r@ == b64_encoding_of(s@),
        b64_decoding_of(r@) == Some(encode_utf8(s@)),
        forall|i: int| 0 <= i < r@.len() ==> r@[i] != '`',
{
    base64::engine::general_purpose::STANDARD.encode(s)
}

/// Relies on `String::from_utf8` of std: `Ok` exactly on valid UTF-8 input,
/// yielding the characters the bytes decode to.
#[verifier::external_body]
fn utf8_to_string(v: Vec<u8>) -> (r: Option<String>)
    ensures
        match r {
            Some(t) => valid_utf8(v@) && t@ == decode_utf8(v@),
            None => !valid_utf8(v@),
        },
{
    String::from_utf8(v).ok()
}

/// The command text an embedded script request decodes to: the payload after
/// the marker, base64-decoded, read as UTF-8.
pub open spec fn script_text_spec(s: Seq<char>) -> Option<Seq<char>> {
    match payload_after_marker(s, exec_marker()) {
        None => None,
        Some(p) => match b64_decoding_of(p) {
            None => None,
            Some(b) => if valid_utf8(b) {
                Some(decode_utf8(b))
            } else {
                None
            },
        },
    }
}

/// Finds the backtick-delimited payload following `marker` in `s`.
fn find_payload(s: &str, marker: &str) -> (r: Option<String>)
    requires
        marker@.len() >= 1,
    ensures
        match r {
            Some(p) => payload_after_marker(s@, marker@) == Some(p@),
            None => payload_after_marker(s@, marker@) is None,
        },
{
    let s_len = s.unicode_len();
    match find_str(s, marker, 0) {
        None => {
            assert(!contains_seq(s@, marker@));
            None
        },
        Some(i) => {
            let mlen = marker.unicode_len();
            let start = i + mlen;
            match find_char(s, '`', start) {
                None => None,
                Some(j) => {
                    let p = s.substring_char(start, j).to_owned();
                    proof {
                        let spec_i = choose|k: int| first_occurrence_from(s@, marker@, 0, k);
                        lemma_first_occurrence_unique(s@, marker@, spec_i, i as int);
                        let spec_j = choose|k: int|
                            start <= k < s@.len() && s@[k] == '`' && (forall|m: int|
                                start <= m < k ==> s@[m] != '`');
                        assert(spec_j == j as int);
                    }
                    Some(p)
                },
            }
        },
    }
}

/// Extracts the embedded user command from the kernel boot parameters:
/// finds the marker, takes the payload up to the closing backtick, decodes
/// it as base64 and reads the bytes as UTF-8. A missing marker is the
/// normal "no script requested" outcome, never an error.
pub fn extract_user_script(cmdline: &str) -> (r: Option<String>)
    ensures
        match r {
            Some(t) => script_text_spec(cmdline@) == Some(t@),
            None => script_text_spec(cmdline@) is None,
        },
        !contains_seq(cmdline@, exec_marker()) ==> r is None,
{
    proof {
        reveal_strlit("virtme.exec=`");
    }
    match find_payload(cmdline, "virtme.exec=`") {
        None => None,
        Some(p) => match base64_decode(p.as_str()) {
            None => None,
            Some(bytes) => utf8_to_string(bytes),
        },
    }
}

/// A string without the marker carries no payload: the absence of the
/// embedded-command token is a normal outcome, not an error.
pub proof fn lemma_no_marker_no_script(s: Seq<char>)
    requires
        !contains_seq(s, exec_marker()),
    ensures
        script_text_spec(s) is None,
{
}

/// Embedding a backtick-free payload between a marker that ends in a
/// backtick and a closing backtick, after a backtick-free prefix, and
/// extracting it again, yields exactly that payload.
pub proof fn lemma_payload_embed(
    prefix: Seq<char>,
    marker: Seq<char>,
    payload: Seq<char>,
    suffix: Seq<char>,
)
    requires
        marker.len() >= 1,
        marker[marker.len() - 1] == '`',
        forall|k: int| 0 <= k < marker.len() - 1 ==> marker[k] != '`',
        forall|k: int| 0 <= k < prefix.len() ==> prefix[k] != '`',
        forall|k: int| 0 <= k < payload.len() ==> payload[k] != '`',
    ensures
        payload_after_marker(prefix + marker + payload + seq!['`'] + suffix, marker) == Some(
            payload,
        ),
{
    let s = prefix + marker + payload + seq!['`'] + suffix;
    let plen = prefix.len() as int;
    let mlen = marker.len() as int;
    let start = plen + mlen;
    assert(s.subrange(plen, start) =~= marker);
    assert(occurs_at(s, marker, plen));
    assert forall|i: int| 0 <= i < plen implies !occurs_at(s, marker, i) by {
        if occurs_at(s, marker, i) {
            let p = i + mlen - 1;
            assert(s.subrange(i, i + mlen)[mlen - 1] == s[p]);
            assert(s[p] == '`');
            if p < plen {
                assert(s[p] == prefix[p]);
            } else {
                assert(s[p] == marker[p - plen]);
                assert(p - plen < mlen - 1);
            }
        }
    }
    assert(first_occurrence_from(s, marker, 0, plen));
    let i0 = choose|i: int| first_occurrence_from(s, marker, 0, i);
    lemma_first_occurrence_unique(s, marker, i0, plen);
    let close = start + payload.len() as int;
    assert forall|k: int| start <= k < close implies s[k] != '`' by {
        assert(s[k] == payload[k - start]);
    }
    assert(s[close] == '`');
    let j0 = choose|j: int|
        start <= j < s.len() && s[j] == '`' && (forall|k: int| start <= k < j ==> s[k] != '`');
    assert(!(j0 < close) && !(close < j0));
    assert(s.subrange(start, close) =~= payload);
}

/// Builds a synthetic boot-parameter string that carries `text` as an
/// embedded, base64-encoded command: extraction recovers exactly `text`.
pub fn embed_user_script(text: &str, prefix: &str, suffix: &str) -> (r: String)
    requires
        text@.len() < 0x4000_0000,
        forall|k: int| 0 <= k < prefix@.len() ==> prefix@[k] != '`',
    ensures
        r@ == prefix@ + exec_marker() + b64_encoding_of(text@) + seq!['`'] + suffix@,
        script_text_spec(r@) == Some(text@),
{
    let encoded = base64_encode(text);
    let mut s = prefix.to_owned();
    s.append("virtme.exec=`");
    s.append(encoded.as_str());
    s.append("`");
    s.append(suffix);
    proof {
        reveal_strlit("virtme.exec=`");
        reveal_strlit("`");
        assert(("`"@) =~= seq!['`']);
        assert(s@ =~= prefix@ + exec_marker() + encoded@ + seq!['`'] + suffix@);
        let m = exec_marker();
        assert(m.len() == 13);
        assert(m[12] == '`');
        assert forall|k: int| 0 <= k < m.len() - 1 implies m[k] != '`' by {
            reveal_strlit("virtme.exec=`");
        }
        lemma_payload_embed(prefix@, m, encoded@, suffix@);
        assert(payload_after_marker(s@, m) == Some(encoded@));
        encode_utf8_valid_utf8(text@);
        encode_utf8_decode_utf8(text@);
    }
    s
}

/// Extracts the vsock proxy command from the kernel boot parameters: the
/// literal text between the marker and the closing backtick.
pub fn extract_vsock_exec(cmdline: &str) -> (r: Option<String>)
    ensures
        match r {
            Some(t) => payload_after_marker(cmdline@, vsock_marker()) == Some(t@),
            None => payload_after_marker(cmdline@, vsock_marker()) is None,
        },
        !contains_seq(cmdline@, vsock_marker()) ==> r is None,
{
    proof {
        reveal_strlit("virtme.vsockexec=`");
    }
    find_payload(cmdline, "virtme.vsockexec=`")
}

/// A file to be written with a given mode, octal.
pub struct FileSpec {
    pub path: String,
    pub mode: u32,
    pub contents: String,
}

/// The private path the embedded command is materialized at.
pub open spec fn user_script_path() -> Seq<char> {
    "/run/tmp/.virtme-script"@
}

/// Describes the executable script file for an embedded command: the fixed
/// private path, executable permission, the command text as contents.
pub fn create_user_script(cmd: &str) -> (f: FileSpec)
    ensures
        f.path@ == user_script_path(),
        f.mode == 0o755,
        f.contents@ == cmd@,
{
    FileSpec { path: "/run/tmp/.virtme-script".to_owned(), mode: 0o755, contents: cmd.to_owned() }
}

/// What a boot with an embedded command asks for.
pub enum ScriptSetup {
    /// No marker in the boot parameters: nothing to materialize.
    NoScript,
    /// Write the script file; `run_now` asks for immediate scripted
    /// execution (suppressed when a graphical session was requested).
    Script { file: FileSpec, run_now: bool },
}

/// Decides what to do about an embedded command: extract it, and if one is
/// present, materialize it as the executable script file, to be run at once
/// unless a graphical session was requested.
pub fn setup_user_script(cmdline: &str, graphics: bool) -> (r: ScriptSetup)
    ensures
        (match script_text_spec(cmdline@) {
            None => r is NoScript,
            Some(t) => {
                &&& r matches ScriptSetup::Script { file, run_now }
                &&& file.path@ == user_script_path()
                &&& file.mode == 0o755
                &&& file.contents@ == t
                &&& run_now == !graphics
            },
        }),
{
    match extract_user_script(cmdline) {
        None => ScriptSetup::NoScript,
        Some(cmd) => ScriptSetup::Script {
            file: create_user_script(cmd.as_str()),
            run_now: !graphics,
        },
    }
}

/// Which of the five paravirtual script ports are present.
pub struct ScriptPorts {
    pub stdin_port: bool,
    pub stdout_port: bool,
    pub stderr_port: bool,
    pub dev_stdout_port: bool,
    pub dev_stderr_port: bool,
}

impl ScriptPorts {
    /// All five ports a remote script session needs.
    pub open spec fn all_present(self) -> bool {
        self.stdin_port && self.stdout_port && self.stderr_port && self.dev_stdout_port
            && self.dev_stderr_port
    }
}

/// Presence of one source/destination pair for the console symlinks.
pub struct LinkStatus {
    pub src_exists: bool,
    pub dst_exists: bool,
}

/// Presence of the four port devices that are symlinked into `/dev`.
pub struct IoLinkStatus {
    pub ret: LinkStatus,
    pub dev_stdin: LinkStatus,
    pub dev_stdout: LinkStatus,
    pub dev_stderr: LinkStatus,
}

/// One symlink to install: remove `dst` first when `unlink_dst` holds, give
/// `src` to the session user, then link `dst` to `src`.
pub struct LinkStep {
    pub src: String,
    pub dst: String,
    pub unlink_dst: bool,
}

impl LinkStep {
    /// The plain value of the step.
    pub open spec fn step(self) -> (Seq<char>, Seq<char>, bool) {
        (self.src@, self.dst@, self.unlink_dst)
    }
}

/// The symlink steps a pair contributes: one when its source port exists,
/// none otherwise.
pub open spec fn link_steps_for(
    st: LinkStatus,
    src: Seq<char>,
    dst: Seq<char>,
) -> Seq<(Seq<char>, Seq<char>, bool)> {
    if st.src_exists {
        seq![(src, dst, st.dst_exists)]
    } else {
        Seq::empty()
    }
}

/// The symlink steps for all four port devices, in their fixed order.
pub open spec fn expected_link_steps(io: IoLinkStatus) -> Seq<(Seq<char>, Seq<char>, bool)> {
    link_steps_for(io.ret, "/dev/virtio-ports/virtme.ret"@, "/dev/virtme.ret"@) + link_steps_for(
        io.dev_stdin,
        "/dev/virtio-ports/virtme.dev_stdin"@,
        "/dev/stdin"@,
    ) + link_steps_for(io.dev_stdout, "/dev/virtio-ports/virtme.dev_stdout"@, "/dev/stdout"@)
        + link_steps_for(io.dev_stderr, "/dev/virtio-ports/virtme.dev_stderr"@, "/dev/stderr"@)
}

/// A remote (batch) script session: install the console symlinks, open the
/// three raw ports as the script's standard streams, strip the private
/// environment, run the command, and deliver the exit code to the return
/// port.
pub struct RemoteScriptPlan {
    pub links: Vec<LinkStep>,
    pub tty_stdin: String,
    pub tty_stdout: String,
    pub tty_stderr: String,
    pub program: String,
    pub args: Vec<String>,
    pub ret_port: String,
}

/// How an embedded command is dispatched.
pub enum ScriptDispatch {
    /// Not all five ports exist: nothing is opened, the caller falls through
    /// to the console-based session.
    PortsMissing,
    /// All five ports exist: a remote session.
    Remote(RemoteScriptPlan),
}

/// Everything a remote plan promises: the symlink steps for exactly the
/// port devices that exist, the three fixed raw ports, the command (through
/// the privilege-switch helper for a named user, directly for root), and
/// the return-code port.
pub open spec fn remote_plan_ok(p: RemoteScriptPlan, io: IoLinkStatus, user: Seq<char>) -> bool {
    &&& p.links@.map_values(|l: LinkStep| l.step()) == expected_link_steps(io)
    &&& p.tty_stdin@ == "/dev/virtio-ports/virtme.stdin"@
    &&& p.tty_stdout@ == "/dev/virtio-ports/virtme.stdout"@
    &&& p.tty_stderr@ == "/dev/virtio-ports/virtme.stderr"@
    &&& (if user.len() > 0 {
        &&& p.program@ == "su"@
        &&& p.args@.len() == 3
        &&& p.args@[0]@ == user
        &&& p.args@[1]@ == "-c"@
        &&& p.args@[2]@ == user_script_path()
    } else {
        &&& p.program@ == "/bin/sh"@
        &&& p.args@.len() == 1
        &&& p.args@[0]@ == user_script_path()
    })
    &&& p.ret_port@ == "/dev/virtme.ret"@
}

/// Decides how to run the materialized script: when the five paravirtual
/// ports all exist, a remote session over them; otherwise nothing is opened
/// and the caller falls through to the console path.
pub fn run_user_script(ports: &ScriptPorts, io: &IoLinkStatus, user: &str) -> (d: ScriptDispatch)
    ensures
        !ports.all_present() ==> d is PortsMissing,
        ports.all_present() ==> (d matches ScriptDispatch::Remote(p) && remote_plan_ok(
            p,
            *io,
            user@,
        )),
{
    if !(ports.stdin_port && ports.stdout_port && ports.stderr_port && ports.dev_stdout_port
        && ports.dev_stderr_port) {
        return ScriptDispatch::PortsMissing;
    }
    let mut links: Vec<LinkStep> = Vec::new();
    if io.ret.src_exists {
        links.push(LinkStep {
            src: "/dev/virtio-ports/virtme.ret".to_owned(),
            dst: "/dev/virtme.ret".to_owned(),
            unlink_dst: io.ret.dst_exists,
        });
    }
    if io.dev_stdin.src_exists {
        links.push(LinkStep {
            src: "/dev/virtio-ports/virtme.dev_stdin".to_owned(),
            dst: "/dev/stdin".to_owned(),
            unlink_dst: io.dev_stdin.dst_exists,
        });
    }
    if io.dev_stdout.src_exists {
        links.push(LinkStep {
            src: "/dev/virtio-ports/virtme.dev_stdout".to_owned(),
            dst: "/dev/stdout".to_owned(),
            unlink_dst: io.dev_stdout.dst_exists,
        });
    }
    if io.dev_stderr.src_exists {
        links.push(LinkStep {
            src: "/dev/virtio-ports/virtme.dev_stderr".to_owned(),
            dst: "/dev/stderr".to_owned(),
            unlink_dst: io.dev_stderr.dst_exists,
        });
    }
    proof {
        assert(links@.map_values(|l: LinkStep| l.step()) =~= expected_link_steps(*io));
    }
    let (program, args) = if user.unicode_len() > 0 {
        let mut a: Vec<String> = Vec::new();
        a.push(user.to_owned());
        a.push("-c".to_owned());
        a.push("/run/tmp/.virtme-script".to_owned());
        ("su".to_owned(), a)
    } else {
        let mut a: Vec<String> = Vec::new();
        a.push("/run/tmp/.virtme-script".to_owned());
        ("/bin/sh".to_owned(), a)
    };
    ScriptDispatch::Remote(RemoteScriptPlan {
        links,
        tty_stdin: "/dev/virtio-ports/virtme.stdin".to_owned(),
        tty_stdout: "/dev/virtio-ports/virtme.stdout".to_owned(),
        tty_stderr: "/dev/virtio-ports/virtme.stderr".to_owned(),
        program,
        args,
        ret_port: "/dev/virtme.ret".to_owned(),
    })
}

/// The decimal text written to the return-code port: the script's exit
/// code, or the sentinel for "terminated without an exit code".
pub fn script_exit_code_text(code: Option<i32>) -> (s: String)
    ensures
        (match code {
            Some(c) => s@ == crate::strfind::dec_rep_signed(c as int),
            None => s@ == crate::strfind::dec_rep_signed(-1),
        }),
{
    match code {
        Some(c) => crate::strfind::i64_to_dec(c as i64),
        None => crate::strfind::i64_to_dec(-1),
    }
}

} // verus!
