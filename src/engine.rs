use vstd::prelude::*;

use crate::text::{
    chars_eq, chars_of, push_chars, push_decimal, push_signed_decimal, push_str, split_whitespace,
    split_ws, string_of, views, decimal, signed_decimal,
};

verus! {

/// How far a search may go: a depth, a node count, or both.
#[derive(Clone, Copy)]
pub struct SearchLimit {
    pub depth: Option<u16>,
    pub nodes: Option<u64>,
}

/// The text of the command that starts a search under these limits.
pub open spec fn go_text(depth: Option<u16>, nodes: Option<u64>) -> Seq<char> {
    let d = match depth {
        Some(v) => " depth "@ + decimal(v as nat),
        None => Seq::empty(),
    };
    let n = match nodes {
        Some(v) => " nodes "@ + decimal(v as nat),
        None => Seq::empty(),
    };
    "go"@ + d + n + "\n"@
}

impl SearchLimit {
    /// The command that starts a search: `go`, then ` depth D` and ` nodes N`
    /// for the limits that are set, then a newline.
    pub fn go_command(&self) -> (r: String)
        ensures
            r@ == go_text(self.depth, self.nodes),
    {
        let mut out: Vec<char> = Vec::new();
        push_str(&mut out, "go");
        if let Some(depth) = self.depth {
            push_str(&mut out, " depth ");
            push_decimal(&mut out, depth as u64);
        }
        if let Some(nodes) = self.nodes {
            push_str(&mut out, " nodes ");
            push_decimal(&mut out, nodes);
        }
        push_str(&mut out, "\n");
        assert(out@ =~= go_text(self.depth, self.nodes));
        string_of(&out)
    }
}

/// Whether the first whitespace-delimited token of `line` is `marker`.
pub open spec fn leads_with(line: Seq<char>, marker: Seq<char>) -> bool {
    split_ws(line)[0] == marker
}

/// Whether the first whitespace-delimited token of `line` is `marker`, as when
/// waiting for `uciok` or `readyok`.
pub fn first_token_is(line: &str, marker: &str) -> (r: bool)
    ensures
        r == leads_with(line@, marker@),
{
    let cs = chars_of(line);
    let toks = split_whitespace(&cs);
    proof {
        crate::text::lemma_split_nonempty(line@);
    }
    chars_eq(&toks[0], marker)
}

/// The command that starts the protocol.
pub fn handshake_command() -> (r: String)
    ensures
        r@ == "uci\n"@,
{
    let mut out: Vec<char> = Vec::new();
    push_str(&mut out, "uci\n");
    string_of(&out)
}

/// The command that asks whether the engine is ready.
pub fn ready_command() -> (r: String)
    ensures
        r@ == "isready\n"@,
{
    let mut out: Vec<char> = Vec::new();
    push_str(&mut out, "isready\n");
    string_of(&out)
}

/// The command that starts a new game.
pub fn new_game_command() -> (r: String)
    ensures
        r@ == "ucinewgame\n"@,
{
    let mut out: Vec<char> = Vec::new();
    push_str(&mut out, "ucinewgame\n");
    string_of(&out)
}

/// The command that sets up the position `fen`.
pub fn position_command(fen: &str) -> (r: String)
    ensures
        r@ == "position fen "@ + fen@ + "\n"@,
{
    let mut out: Vec<char> = Vec::new();
    push_str(&mut out, "position fen ");
    push_str(&mut out, fen);
    push_str(&mut out, "\n");
    string_of(&out)
}

/// Whether `i` is the index of the first `c` in `s`.
pub open spec fn is_first(s: Seq<char>, c: char, i: int) -> bool {
    0 <= i < s.len() && s[i] == c && forall|j: int| 0 <= j < i ==> s[j] != c
}

/// Whether `i` is the index of the last `c` in `s`.
pub open spec fn is_last(s: Seq<char>, c: char, i: int) -> bool {
    0 <= i < s.len() && s[i] == c && forall|j: int| i < j < s.len() ==> s[j] != c
}

/// The text of the command that sets option `name` to `value`.
pub open spec fn option_text(name: Seq<char>, value: Seq<char>) -> Seq<char> {
    "setoption name "@ + name + " value "@ + value + "\n"@
}

/// The command for a configuration entry `NAME=VALUE`, split at its first `=`;
/// none for an entry without `=`.
pub open spec fn option_line(entry: Seq<char>) -> Option<Seq<char>> {
    if exists|i: int| is_first(entry, '=', i) {
        let i = choose|i: int| is_first(entry, '=', i);
        Some(option_text(entry.take(i), entry.skip(i + 1)))
    } else {
        None
    }
}

/// The command for a configuration entry `NAME=VALUE`, split at its first `=`;
/// `None` for an entry without `=`.
pub fn set_option_command(entry: &str) -> (r: Option<String>)
    ensures
        r is None <==> forall|j: int| 0 <= j < entry@.len() ==> entry@[j] != '=',
        match r {
            Some(c) => option_line(entry@) == Some(c@),
            None => option_line(entry@) is None,
        },
{
    let cs = chars_of(entry);
    let mut i: usize = 0;
    while i < cs.len()
        invariant
            i <= cs.len(),
            cs@ == entry@,
            forall|j: int| 0 <= j < i ==> cs@[j] != '=',
        decreases cs.len() - i,
    {
        if cs[i] == '=' {
            let name = crate::text::copy_range(&cs, 0, i);
            let value = crate::text::copy_range(&cs, i + 1, cs.len());
            let mut out: Vec<char> = Vec::new();
            push_str(&mut out, "setoption name ");
            push_chars(&mut out, &name);
            push_str(&mut out, " value ");
            push_chars(&mut out, &value);
            push_str(&mut out, "\n");
            assert(is_first(entry@, '=', i as int));
            let ghost k = choose|k: int| is_first(entry@, '=', k);
            assert(k == i as int) by {
                if k < i {
                    assert(entry@[k] != '=');
                } else if k > i {
                    assert(entry@[i as int] != '=');
                }
            }
            assert(out@ =~= option_text(entry@.take(i as int), entry@.skip(i + 1)));
            return Some(string_of(&out));
        }
        i = i + 1;
    }
    assert(!exists|k: int| is_first(entry@, '=', k));
    None
}

/// A workload line split at its last space: the position, and the label
/// with the whitespace around it removed; `None` for a line without a space.
pub fn split_workload(line: &str) -> (r: Option<(String, String)>)
    ensures
        match r {
            Some((fen, label)) => exists|i: int|
                is_last(line@, ' ', i) && fen@ == line@.take(i) && label@ == crate::text::trim(
                    line@.skip(i),
                ),
            None => forall|j: int| 0 <= j < line@.len() ==> line@[j] != ' ',
        },
{
    let cs = chars_of(line);
    let mut k: usize = cs.len();
    while k > 0
        invariant
            k <= cs.len(),
            cs@ == line@,
            forall|j: int| k <= j < cs.len() ==> cs@[j] != ' ',
        decreases k,
    {
        if cs[k - 1] == ' ' {
            let i = k - 1;
            let fen = crate::text::copy_range(&cs, 0, i);
            let rest = crate::text::copy_range(&cs, i, cs.len());
            let label = crate::text::trim_chars(&rest);
            assert(is_last(line@, ' ', i as int));
            assert(fen@ =~= line@.take(i as int));
            assert(rest@ =~= line@.skip(i as int));
            return Some((string_of(&fen), string_of(&label)));
        }
        k = k - 1;
    }
    None
}

/// The text of a scored workload: position, label and score, separated by
/// spaces and ended by a newline.
pub open spec fn result_text(fen: Seq<char>, label: Seq<char>, score: int) -> Seq<char> {
    fen + " "@ + label + " "@ + signed_decimal(score) + "\n"@
}

/// The line that reports `score` for the position `fen` with its label.
pub fn format_result(fen: &str, label: &str, score: i16) -> (r: String)
    ensures
        r@ == result_text(fen@, label@, score as int),
{
    let mut out: Vec<char> = Vec::new();
    push_str(&mut out, fen);
    push_str(&mut out, " ");
    push_str(&mut out, label);
    push_str(&mut out, " ");
    push_signed_decimal(&mut out, score as i64);
    push_str(&mut out, "\n");
    assert(out@ =~= result_text(fen@, label@, score as int));
    string_of(&out)
}

/// Why a search failed.
#[derive(Clone, Copy, Debug, PartialEq, Eq, Structural)]
pub enum SearchError {
    /// A line began with neither the progress nor the completion marker, or a
    /// `score` token was not followed by `cp V` or `mate V`.
    ProtocolViolation,
    /// The search completed and no score was ever reported.
    MissingResult,
    /// A score value was not an integer of the score's range.
    MalformedNumber,
}

/// The score that reports a mate in `m` plies: far outside the centipawn range,
/// negative when the side to move is mated.
pub open spec fn mate_score(m: int) -> int {
    if m <= 0 {
        m - 32000
    } else {
        32000 - m
    }
}

/// The score that `score KIND VALUE` reports.
pub open spec fn score_of(kind: Seq<char>, value: Seq<char>) -> Result<i16, SearchError> {
    if kind == "cp"@ {
        match crate::text::i16_of(value) {
            Some(v) => Ok(v),
            None => Err(SearchError::MalformedNumber),
        }
    } else if kind == "mate"@ {
        match crate::text::i16_of(value) {
            Some(m) => if i16::MIN <= mate_score(m as int) <= i16::MAX {
                Ok(mate_score(m as int) as i16)
            } else {
                Err(SearchError::MalformedNumber)
            },
            None => Err(SearchError::MalformedNumber),
        }
    } else {
        Err(SearchError::ProtocolViolation)
    }
}

/// The latest score after reading the tokens of a progress line from index
/// `i` on, starting from `score`.
pub open spec fn scan_tokens(toks: Seq<Seq<char>>, i: int, score: Option<i16>) -> Result<
    Option<i16>,
    SearchError,
>
    decreases toks.len() - i,
{
    if i < 0 || i >= toks.len() {
        Ok(score)
    } else {
        let t = toks[i];
        if t == "score"@ {
            if i + 2 < toks.len() {
                match score_of(toks[i + 1], toks[i + 2]) {
                    Ok(s) => scan_tokens(toks, i + 3, Some(s)),
                    Err(e) => Err(e),
                }
            } else {
                Err(SearchError::ProtocolViolation)
            }
        } else if t == "wdl"@ {
            if i + 4 < toks.len() {
                scan_tokens(toks, i + 4, score)
            } else {
                Ok(score)
            }
        } else if t == "upperbound"@ || t == "lowerbound"@ {
            scan_tokens(toks, i + 1, score)
        } else if t == "pv"@ {
            Ok(score)
        } else if i + 2 < toks.len() {
            scan_tokens(toks, i + 2, score)
        } else {
            Ok(score)
        }
    }
}

/// What a line of search output means.
#[derive(Clone, Copy, Debug, PartialEq, Eq, Structural)]
pub enum SearchStep {
    /// A progress line: the search goes on.
    Pending,
    /// The completion line, with the latest score.
    Complete(i16),
}

/// The outcome of reading `line` while the latest score is `score`: the step,
/// and the latest score after it.
pub open spec fn line_outcome(score: Option<i16>, line: Seq<char>) -> (
    Result<SearchStep, SearchError>,
    Option<i16>,
) {
    let toks = split_ws(line);
    if toks[0] == "info"@ {
        match scan_tokens(toks, 1, score) {
            Ok(s) => (Ok(SearchStep::Pending), s),
            Err(e) => (Err(e), score),
        }
    } else if toks[0] == "bestmove"@ {
        match score {
            Some(s) => (Ok(SearchStep::Complete(s)), score),
            None => (Err(SearchError::MissingResult), score),
        }
    } else {
        (Err(SearchError::ProtocolViolation), score)
    }
}

/// Decodes `score KIND VALUE`.
pub fn decode_score(kind: &Vec<char>, value: &Vec<char>) -> (r: Result<i16, SearchError>)
    ensures
        r == score_of(kind@, value@),
{
    if chars_eq(kind, "cp") {
        match crate::text::parse_i16(value) {
            Some(v) => Ok(v),
            None => Err(SearchError::MalformedNumber),
        }
    } else if chars_eq(kind, "mate") {
        match crate::text::parse_i16(value) {
            Some(m) => {
                if m <= 0 {
                    if m < -768 {
                        Err(SearchError::MalformedNumber)
                    } else {
                        Ok(m - 32000)
                    }
                } else {
                    Ok(32000 - m)
                }
            },
            None => Err(SearchError::MalformedNumber),
        }
    } else {
        Err(SearchError::ProtocolViolation)
    }
}

fn scan_progress(toks: &Vec<Vec<char>>, score: Option<i16>) -> (r: Result<Option<i16>, SearchError>)
    ensures
        r == scan_tokens(views(toks@), 1, score),
{
    let ghost ts = views(toks@);
    let mut i: usize = 1;
    let mut cur = score;
    while i < toks.len()
        invariant
            ts == views(toks@),
            ts.len() == toks.len(),
            scan_tokens(ts, i as int, cur) == scan_tokens(ts, 1, score),
        decreases toks.len() - i,
    {
        let t = &toks[i];
        assert(ts[i as int] == t@);
        if chars_eq(t, "score") {
            if toks.len() - i > 2 {
                assert(ts[i + 1] == toks@[i + 1]@);
                assert(ts[i + 2] == toks@[i + 2]@);
                match decode_score(&toks[i + 1], &toks[i + 2]) {
                    Ok(s) => {
                        cur = Some(s);
                        i = i + 3;
                    },
                    Err(e) => {
                        return Err(e);
                    },
                }
            } else {
                return Err(SearchError::ProtocolViolation);
            }
        } else if chars_eq(t, "wdl") {
            if toks.len() - i <= 4 {
                return Ok(cur);
            }
            i = i + 4;
        } else if chars_eq(t, "upperbound") || chars_eq(t, "lowerbound") {
            i = i + 1;
        } else if chars_eq(t, "pv") {
            return Ok(cur);
        } else {
            if toks.len() - i <= 2 {
                return Ok(cur);
            }
            i = i + 2;
        }
    }
    Ok(cur)
}

/// The state of reading the output of one search: the latest score reported.
pub struct SearchScan {
    pub score: Option<i16>,
}

impl SearchScan {
    /// A scan that has seen no score yet.
    pub fn new() -> (r: SearchScan)
        ensures
            r.score is None,
    {
        SearchScan { score: None }
    }

    /// Reads one line of search output. A progress line keeps the last score it
    /// reports; the completion line gives the latest score, or fails when none
    /// was reported; any other line fails. On failure the latest score is kept.
    pub fn feed_line(&mut self, line: &str) -> (r: Result<SearchStep, SearchError>)
        ensures
            (r, final(self).score) == line_outcome(old(self).score, line@),
    {
        let cs = chars_of(line);
        let toks = split_whitespace(&cs);
        proof {
            crate::text::lemma_split_nonempty(line@);
        }
        assert(views(toks@)[0] == toks@[0]@);
        if chars_eq(&toks[0], "info") {
            match scan_progress(&toks, self.score) {
                Ok(s) => {
                    self.score = s;
                    Ok(SearchStep::Pending)
                },
                Err(e) => Err(e),
            }
        } else if chars_eq(&toks[0], "bestmove") {
            match self.score {
                Some(s) => Ok(SearchStep::Complete(s)),
                None => Err(SearchError::MissingResult),
            }
        } else {
            Err(SearchError::ProtocolViolation)
        }
    }
}

/// One step of a conversation with the engine.
pub enum Step {
    /// Write this command.
    Send(String),
    /// Read and discard lines up to one whose first token is this marker.
    Await(String),
}

/// The abstract form of a step.
pub ghost enum StepSpec {
    Send(Seq<char>),
    Await(Seq<char>),
}

impl View for Step {
    type V = StepSpec;

    open spec fn view(&self) -> StepSpec {
        match self {
            Step::Send(s) => StepSpec::Send(s@),
            Step::Await(m) => StepSpec::Await(m@),
        }
    }
}

/// The abstract forms of a sequence of steps.
pub open spec fn step_views(v: Seq<Step>) -> Seq<StepSpec> {
    v.map_values(|s: Step| s@)
}

/// Synchronisation: ask whether the engine is ready and wait for its answer.
pub open spec fn sync_steps() -> Seq<StepSpec> {
    seq![StepSpec::Send("isready\n"@), StepSpec::Await("readyok"@)]
}

/// For each configuration entry with `=`, its set-option command and a
/// synchronisation; entries without `=` give nothing.
pub open spec fn option_steps(config: Seq<Seq<char>>) -> Seq<StepSpec>
    decreases config.len(),
{
    if config.len() == 0 {
        Seq::empty()
    } else {
        option_steps(config.drop_last()) + match option_line(config.last()) {
            Some(c) => seq![StepSpec::Send(c)] + sync_steps(),
            None => Seq::empty(),
        }
    }
}

/// The handshake: start the protocol, wait for its acknowledgement, then
/// configure the engine.
pub open spec fn handshake_spec(config: Seq<Seq<char>>) -> Seq<StepSpec> {
    seq![StepSpec::Send("uci\n"@), StepSpec::Await("uciok"@)] + option_steps(config)
}

/// Setting up a position: a new game, a synchronisation, the position, and
/// another synchronisation.
pub open spec fn setup_spec(fen: Seq<char>) -> Seq<StepSpec> {
    seq![StepSpec::Send("ucinewgame\n"@)] + sync_steps() + seq![
        StepSpec::Send("position fen "@ + fen + "\n"@),
    ] + sync_steps()
}

/// The texts of a sequence of strings.
pub open spec fn string_views(v: Seq<String>) -> Seq<Seq<char>> {
    v.map_values(|s: String| s@)
}

fn push_sync(steps: &mut Vec<Step>)
    ensures
        step_views(final(steps)@) == step_views(old(steps)@) + sync_steps(),
{
    steps.push(Step::Send(ready_command()));
    let mut m: Vec<char> = Vec::new();
    push_str(&mut m, "readyok");
    steps.push(Step::Await(string_of(&m)));
    assert(step_views(final(steps)@) =~= step_views(old(steps)@) + sync_steps());
}

/// The steps of the handshake with configuration `config`.
pub fn handshake_steps(config: &Vec<String>) -> (r: Vec<Step>)
    ensures
        step_views(r@) == handshake_spec(string_views(config@)),
{
    let mut steps: Vec<Step> = Vec::new();
    steps.push(Step::Send(handshake_command()));
    let mut m: Vec<char> = Vec::new();
    push_str(&mut m, "uciok");
    steps.push(Step::Await(string_of(&m)));
    let ghost head = seq![StepSpec::Send("uci\n"@), StepSpec::Await("uciok"@)];
    assert(step_views(steps@) =~= head);
    let mut i: usize = 0;
    while i < config.len()
        invariant
            i <= config.len(),
            step_views(steps@) == head + option_steps(string_views(config@).take(i as int)),
        decreases config.len() - i,
    {
        let ghost before = steps@;
        let ghost cs = string_views(config@);
        assert(cs.take(i + 1).drop_last() =~= cs.take(i as int));
        assert(cs.take(i + 1).last() == config@[i as int]@);
        match set_option_command(config[i].as_str()) {
            Some(c) => {
                steps.push(Step::Send(c));
                assert(step_views(steps@) =~= step_views(before) + seq![StepSpec::Send(c@)]);
                push_sync(&mut steps);
            },
            None => {},
        }
        i = i + 1;
        assert(step_views(steps@) =~= head + option_steps(cs.take(i as int)));
    }
    assert(string_views(config@).take(config.len() as int) =~= string_views(config@));
    steps
}

/// The steps that set up the position `fen`.
pub fn setup_steps(fen: &str) -> (r: Vec<Step>)
    ensures
        step_views(r@) == setup_spec(fen@),
{
    let mut steps: Vec<Step> = Vec::new();
    steps.push(Step::Send(new_game_command()));
    assert(step_views(steps@) =~= seq![StepSpec::Send("ucinewgame\n"@)]);
    push_sync(&mut steps);
    let ghost mid = step_views(steps@);
    let p = position_command(fen);
    let ghost pv = p@;
    steps.push(Step::Send(p));
    assert(step_views(steps@) =~= mid + seq![StepSpec::Send(pv)]);
    push_sync(&mut steps);
    assert(step_views(steps@) =~= setup_spec(fen@));
    steps
}

} // verus!
