use vstd::prelude::*;
use vstd::string::*;

verus! {

/// The stage of a remote-execution attempt at which a failure occurred.
#[derive(Clone, Copy, Debug, PartialEq, Eq, Structural)]
pub enum Stage {
    Connect,
    Handshake,
    Authenticate,
    OpenChannel,
    Run,
    ReadOutput,
}

impl Stage {
    /// Human-readable description of the stage, as it appears in a failure
    /// status line.
    pub open spec fn description_spec(self) -> Seq<char> {
        match self {
            Stage::Connect => "connect"@,
            Stage::Handshake => "handshake"@,
            Stage::Authenticate => "authenticate"@,
            Stage::OpenChannel => "create channel"@,
            Stage::Run => "execute command"@,
            Stage::ReadOutput => "read command output"@,
        }
    }

    /// The stage description used in failure status lines.
    pub fn description(&self) -> (r: &'static str)
        ensures
            r@ == self.description_spec(),
    {
        match self {
            Stage::Connect => "connect",
            Stage::Handshake => "handshake",
            Stage::Authenticate => "authenticate",
            Stage::OpenChannel => "create channel",
            Stage::Run => "execute command",
            Stage::ReadOutput => "read command output",
        }
    }
}

/// The outcome of one remote-command execution attempt: either the raw
/// captured output, or the stage that failed together with its cause.
#[derive(Debug, Clone)]
pub enum ExecutionAttempt {
    Output(String),
    Failure(Stage, String),
}

/// Index of the first newline in `s`, or `s.len()` if there is none.
pub open spec fn line_break(s: Seq<char>) -> nat
    decreases s.len(),
{
    if s.len() == 0 {
        0
    } else if s[0] == '\n' {
        0
    } else {
        1 + line_break(s.subrange(1, s.len() as int))
    }
}

/// The line segment `[0, j)` of `s`, with a carriage return stripped when it
/// immediately precedes the newline at `j`.
pub open spec fn strip_segment(s: Seq<char>, j: int) -> Seq<char> {
    if j < s.len() && j > 0 && s[j - 1] == '\r' {
        s.subrange(0, j - 1)
    } else {
        s.subrange(0, j)
    }
}

/// The lines of `s`, split at newlines, with a carriage return before each
/// newline stripped and no empty final line after a trailing newline.
pub open spec fn spec_lines(s: Seq<char>) -> Seq<Seq<char>>
    decreases s.len(),
{
    if s.len() == 0 {
        seq![]
    } else {
        let j = line_break(s);
        if j + 1 >= s.len() {
            seq![strip_segment(s, j as int)]
        } else {
            seq![strip_segment(s, j as int)] + spec_lines(
                s.subrange(j as int + 1, s.len() as int),
            )
        }
    }
}

/// The lines joined back with single newlines, with no trailing newline.
pub open spec fn join_lines(lines: Seq<Seq<char>>) -> Seq<char>
    decreases lines.len(),
{
    if lines.len() == 0 {
        seq![]
    } else if lines.len() == 1 {
        lines[0]
    } else {
        lines[0] + seq!['\n'] + join_lines(lines.subrange(1, lines.len() as int))
    }
}

/// One output line prefixed with the captured timestamp.
pub open spec fn prefix_line(ts: Seq<char>, line: Seq<char>) -> Seq<char> {
    ts + " - "@ + line
}

/// The status-line body for a successful attempt: every line of the raw
/// output prefixed with the same captured timestamp, joined with newlines.
/// Empty output yields an empty body.
pub open spec fn spec_format_output(ts: Seq<char>, raw: Seq<char>) -> Seq<char> {
    join_lines(spec_lines(raw).map_values(|l: Seq<char>| prefix_line(ts, l)))
}

/// The status-line body for a failed attempt: a single line naming the stage
/// that failed and its cause.
pub open spec fn spec_failure_line(ts: Seq<char>, stage: Stage, cause: Seq<char>) -> Seq<char> {
    ts + " - Failed to "@ + stage.description_spec() + ": "@ + cause
}

/// The status-line body for any attempt outcome.
pub open spec fn spec_status_line(ts: Seq<char>, attempt: ExecutionAttempt) -> Seq<char> {
    match attempt {
        ExecutionAttempt::Output(raw) => spec_format_output(ts, raw@),
        ExecutionAttempt::Failure(stage, cause) => spec_failure_line(ts, stage, cause@),
    }
}

proof fn lemma_line_break_props(s: Seq<char>)
    ensures
        line_break(s) <= s.len(),
        forall|i: int| 0 <= i < line_break(s) ==> s[i] != '\n',
        line_break(s) < s.len() ==> s[line_break(s) as int] == '\n',
    decreases s.len(),
{
    if s.len() == 0 {
    } else if s[0] == '\n' {
    } else {
        let t = s.subrange(1, s.len() as int);
        lemma_line_break_props(t);
        assert forall|i: int| 0 <= i < line_break(s) implies s[i] != '\n' by {
            if i > 0 {
                assert(s[i] == t[i - 1]);
            }
        }
        if line_break(s) < s.len() {
            assert(s[line_break(s) as int] == t[line_break(s) as int - 1]);
        }
    }
}

proof fn lemma_line_break_at(s: Seq<char>, k: int)
    requires
        0 <= k <= s.len(),
        forall|i: int| 0 <= i < k ==> s[i] != '\n',
        k < s.len() ==> s[k] == '\n',
    ensures
        line_break(s) == k,
    decreases s.len(),
{
    if s.len() == 0 {
    } else if s[0] == '\n' {
        assert(k == 0);
    } else {
        let t = s.subrange(1, s.len() as int);
        assert(forall|i: int| 0 <= i < k - 1 ==> t[i] == s[i + 1]);
        lemma_line_break_at(t, k - 1);
    }
}

proof fn lemma_spec_lines_nonempty(s: Seq<char>)
    requires
        s.len() > 0,
    ensures
        spec_lines(s).len() >= 1,
{
}

/// Unfolds one step of `spec_format_output`: the first raw line becomes the
/// first prefixed line of the body, followed by the formatted remainder.
proof fn lemma_format_output_step(ts: Seq<char>, raw: Seq<char>)
    requires
        raw.len() > 0,
    ensures
        ({
            let j = line_break(raw);
            let line = prefix_line(ts, strip_segment(raw, j as int));
            if j + 1 >= raw.len() {
                spec_format_output(ts, raw) == line
            } else {
                spec_format_output(ts, raw) == line + seq!['\n'] + spec_format_output(
                    ts,
                    raw.subrange(j as int + 1, raw.len() as int),
                )
            }
        }),
{
    lemma_line_break_props(raw);
    let j = line_break(raw);
    let seg = strip_segment(raw, j as int);
    let f = |l: Seq<char>| prefix_line(ts, l);
    if j + 1 >= raw.len() {
        assert(spec_lines(raw) == seq![seg]);
        assert(spec_lines(raw).map_values(f) =~= seq![f(seg)]);
        assert(join_lines(seq![f(seg)]) == f(seg));
    } else {
        let rest = raw.subrange(j as int + 1, raw.len() as int);
        assert(spec_lines(raw) == seq![seg] + spec_lines(rest));
        let m = spec_lines(rest).map_values(f);
        assert(spec_lines(raw).map_values(f) =~= seq![f(seg)] + m);
        lemma_spec_lines_nonempty(rest);
        assert(m.len() >= 1);
        let c = seq![f(seg)] + m;
        assert(c[0] == f(seg));
        assert(c.subrange(1, c.len() as int) =~= m);
        assert(join_lines(c) == f(seg) + seq!['\n'] + join_lines(m));
    }
}

proof fn lemma_format_output_empty(ts: Seq<char>, raw: Seq<char>)
    requires
        raw.len() == 0,
    ensures
        spec_format_output(ts, raw) == Seq::<char>::empty(),
{
    assert(raw =~= Seq::<char>::empty());
    assert(spec_lines(raw) =~= Seq::<Seq<char>>::empty());
    assert(spec_lines(raw).map_values(|l: Seq<char>| prefix_line(ts, l)) =~= Seq::<
        Seq<char>,
    >::empty());
}

proof fn lemma_lines_prepend(line: Seq<char>, rest: Seq<char>)
    requires
        forall|i: int| 0 <= i < line.len() ==> line[i] != '\n',
        line.len() > 0 ==> line[line.len() - 1] != '\r',
        rest.len() > 0,
    ensures
        spec_lines(line + seq!['\n'] + rest) == seq![line] + spec_lines(rest),
{
    let s = line + seq!['\n'] + rest;
    assert(s[line.len() as int] == '\n');
    lemma_line_break_at(s, line.len() as int);
    assert(strip_segment(s, line.len() as int) =~= line);
    assert(s.subrange(line.len() as int + 1, s.len() as int) =~= rest);
}

proof fn lemma_lines_single(line: Seq<char>)
    requires
        forall|i: int| 0 <= i < line.len() ==> line[i] != '\n',
        line.len() > 0,
    ensures
        spec_lines(line) == seq![line],
{
    lemma_line_break_at(line, line.len() as int);
    assert(strip_segment(line, line.len() as int) =~= line);
}

/// The separator and failure phrases contain no newline, so a status line
/// built from newline-free parts splits back into the expected lines.
proof fn lemma_sep_chars()
    ensures
        " - "@.len() == 3,
        forall|i: int| 0 <= i < " - "@.len() ==> " - "@[i] != '\n',
        " - "@[2] == ' ',
{
    reveal_strlit(" - ");
}

/// Every prefixed line is nonempty, free of newlines, and does not end with
/// a carriage return, provided the same holds of its parts.
proof fn lemma_prefix_line_chars(ts: Seq<char>, line: Seq<char>)
    requires
        forall|i: int| 0 <= i < ts.len() ==> ts[i] != '\n',
        forall|i: int| 0 <= i < line.len() ==> line[i] != '\n',
        line.len() > 0 ==> line[line.len() - 1] != '\r',
    ensures
        prefix_line(ts, line).len() > 0,
        forall|i: int| 0 <= i < prefix_line(ts, line).len() ==> prefix_line(ts, line)[i] != '\n',
        prefix_line(ts, line)[prefix_line(ts, line).len() - 1] != '\r',
{
    lemma_sep_chars();
    let p = prefix_line(ts, line);
    assert forall|i: int| 0 <= i < p.len() implies p[i] != '\n' by {
        if i < ts.len() {
            assert(p[i] == ts[i]);
        } else if i < ts.len() + 3 {
            assert(p[i] == " - "@[i - ts.len()]);
        } else {
            assert(p[i] == line[i - ts.len() - 3]);
        }
    }
    if line.len() == 0 {
        assert(p[p.len() - 1] == " - "@[2]);
    } else {
        assert(p[p.len() - 1] == line[line.len() - 1]);
    }
}

/// Law: the body formatted from raw output that produced `k` lines itself
/// splits into exactly `k` lines, and each is the corresponding raw line
/// prefixed with the identical captured timestamp. Holds whenever the
/// timestamp contains no newline and no raw line ends with a bare carriage
/// return.
pub proof fn lemma_success_line_structure(ts: Seq<char>, raw: Seq<char>)
    requires
        forall|i: int| 0 <= i < ts.len() ==> ts[i] != '\n',
        forall|k: int|
            0 <= k < spec_lines(raw).len() ==> (spec_lines(raw)[k].len() > 0
                ==> spec_lines(raw)[k][spec_lines(raw)[k].len() - 1] != '\r'),
    ensures
        spec_lines(spec_format_output(ts, raw)).len() == spec_lines(raw).len(),
        forall|k: int|
            0 <= k < spec_lines(raw).len() ==> spec_lines(spec_format_output(ts, raw))[k]
                == prefix_line(ts, spec_lines(raw)[k]),
    decreases raw.len(),
{
    if raw.len() == 0 {
        lemma_format_output_empty(ts, raw);
        assert(spec_lines(raw) =~= Seq::<Seq<char>>::empty());
        assert(spec_lines(Seq::<char>::empty()) =~= Seq::<Seq<char>>::empty());
    } else {
        lemma_line_break_props(raw);
        lemma_format_output_step(ts, raw);
        let j = line_break(raw);
        let seg = strip_segment(raw, j as int);
        let line = prefix_line(ts, seg);
        assert(forall|i: int| 0 <= i < seg.len() ==> seg[i] != '\n') by {
            assert(forall|i: int| 0 <= i < seg.len() ==> seg[i] == raw[i]);
        }
        if j + 1 >= raw.len() {
            assert(spec_lines(raw) == seq![seg]);
            assert(seg =~= spec_lines(raw)[0]);
            lemma_prefix_line_chars(ts, seg);
            lemma_lines_single(line);
        } else {
            let rest = raw.subrange(j as int + 1, raw.len() as int);
            assert(spec_lines(raw) == seq![seg] + spec_lines(rest));
            assert(seg =~= spec_lines(raw)[0]);
            lemma_prefix_line_chars(ts, seg);
            assert(forall|k: int|
                0 <= k < spec_lines(rest).len() ==> spec_lines(rest)[k] == spec_lines(raw)[k + 1]);
            lemma_success_line_structure(ts, rest);
            let body_rest = spec_format_output(ts, rest);
            lemma_spec_lines_nonempty(rest);
            assert(body_rest.len() > 0) by {
                if body_rest.len() == 0 {
                    assert(spec_lines(body_rest) =~= Seq::<Seq<char>>::empty());
                    assert(spec_lines(Seq::<char>::empty()) =~= Seq::<Seq<char>>::empty());
                }
            }
            lemma_lines_prepend(line, body_rest);
            assert(spec_format_output(ts, raw) == line + seq!['\n'] + body_rest);
            assert(spec_lines(spec_format_output(ts, raw)) == seq![line] + spec_lines(body_rest));
        }
    }
}

/// Law: the body formatted from a failed attempt is a single line — the
/// stage-specific failure description — and nothing else. Holds whenever the
/// timestamp and the cause contain no newline.
pub proof fn lemma_failure_single_line(ts: Seq<char>, stage: Stage, cause: Seq<char>)
    requires
        forall|i: int| 0 <= i < ts.len() ==> ts[i] != '\n',
        forall|i: int| 0 <= i < cause.len() ==> cause[i] != '\n',
    ensures
        spec_lines(spec_failure_line(ts, stage, cause)) == seq![spec_failure_line(ts, stage, cause)],
{
    reveal_strlit(" - Failed to ");
    reveal_strlit(": ");
    reveal_strlit("connect");
    reveal_strlit("handshake");
    reveal_strlit("authenticate");
    reveal_strlit("create channel");
    reveal_strlit("execute command");
    reveal_strlit("read command output");
    let b = spec_failure_line(ts, stage, cause);
    let mid = " - Failed to "@;
    let desc = stage.description_spec();
    let colon = ": "@;
    assert(forall|i: int| 0 <= i < mid.len() ==> mid[i] != '\n');
    assert(forall|i: int| 0 <= i < desc.len() ==> desc[i] != '\n');
    assert(forall|i: int| 0 <= i < colon.len() ==> colon[i] != '\n');
    assert forall|i: int| 0 <= i < b.len() implies b[i] != '\n' by {
        let a = ts.len() as int;
        let c = a + mid.len();
        let d = c + desc.len();
        let e = d + colon.len();
        if i < a {
            assert(b[i] == ts[i]);
        } else if i < c {
            assert(b[i] == mid[i - a]);
        } else if i < d {
            assert(b[i] == desc[i - c]);
        } else if i < e {
            assert(b[i] == colon[i - d]);
        } else {
            assert(b[i] == cause[i - e]);
        }
    }
    lemma_lines_single(b);
}

/// Law: formatting is a pure function of the captured timestamp and the
/// attempt outcome — two bodies formatted from the same inputs are
/// byte-identical.
pub proof fn lemma_format_idempotent(
    ts: Seq<char>,
    attempt: ExecutionAttempt,
    r1: Seq<char>,
    r2: Seq<char>,
)
    requires
        r1 == spec_status_line(ts, attempt),
        r2 == spec_status_line(ts, attempt),
    ensures
        r1 == r2,
{
}

fn find_newline(s: &str) -> (r: usize)
    ensures
        r == line_break(s@),
{
    let n = s.unicode_len();
    let mut i: usize = 0;
    while i < n
        invariant
            i <= n,
            n == s@.len(),
            forall|k: int| 0 <= k < i ==> s@[k] != '\n',
        decreases n - i,
    {
        if s.get_char(i) == '\n' {
            proof {
                lemma_line_break_at(s@, i as int);
            }
            return i;
        }
        i = i + 1;
    }
    proof {
        lemma_line_break_at(s@, n as int);
    }
    n
}

/// Builds the status-line body for raw remote output: each line prefixed with
/// the same captured timestamp, joined with newlines.
pub fn format_output(timestamp: &str, raw: &str) -> (r: String)
    ensures
        r@ == spec_format_output(timestamp@, raw@),
    decreases raw@.len(),
{
    let n = raw.unicode_len();
    if n == 0 {
        proof {
            lemma_format_output_empty(timestamp@, raw@);
        }
        return String::new();
    }
    let j = find_newline(raw);
    proof {
        lemma_line_break_props(raw@);
        lemma_format_output_step(timestamp@, raw@);
    }
    let end: usize = if j < n && j > 0 && raw.get_char(j - 1) == '\r' {
        j - 1
    } else {
        j
    };
    let seg = raw.substring_char(0, end);
    let mut r = String::from_str(timestamp);
    r.append(" - ");
    r.append(seg);
    if j < n && j + 1 < n {
        r.append("\n");
        proof {
            reveal_strlit("\n");
            assert("\n"@ =~= seq!['\n']);
        }
        let rest = raw.substring_char(j + 1, n);
        let tail = format_output(timestamp, rest);
        r.append(tail.as_str());
    }
    r
}

/// Builds the full status-line body for one attempt outcome: the prefixed
/// output lines on success, a single stage-specific failure line otherwise.
pub fn format_status(timestamp: &str, attempt: &ExecutionAttempt) -> (r: String)
    ensures
        r@ == spec_status_line(timestamp@, *attempt),
{
    match attempt {
        ExecutionAttempt::Output(raw) => format_output(timestamp, raw.as_str()),
        ExecutionAttempt::Failure(stage, cause) => {
            let mut r = String::from_str(timestamp);
            r.append(" - Failed to ");
            r.append(stage.description());
            r.append(": ");
            r.append(cause.as_str());
            r
        },
    }
}

} // verus!
