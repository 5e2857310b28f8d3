use stash_scoring::engine::{
    decode_score, first_token_is, format_result, handshake_command, new_game_command,
    position_command, ready_command, set_option_command, split_workload, SearchError, SearchLimit,
    SearchScan, SearchStep,
};

fn chars(s: &str) -> Vec<char> {
    s.chars().collect()
}

fn run(lines: &[&str]) -> Result<i16, SearchError> {
    let mut scan = SearchScan::new();
    for line in lines {
        match scan.feed_line(line) {
            Ok(SearchStep::Pending) => {}
            Ok(SearchStep::Complete(score)) => return Ok(score),
            Err(e) => return Err(e),
        }
    }
    panic!("no completion line");
}

#[test]
fn score_cp_is_taken_as_is() {
    assert_eq!(run(&["info depth 1 score cp 37 nodes 20\n", "bestmove e2e4\n"]), Ok(37));
}

#[test]
fn score_mate_in_one_is_large_positive() {
    assert_eq!(run(&["info depth 3 score mate 1 pv e2e4\n", "bestmove e2e4\n"]), Ok(31999));
}

#[test]
fn score_mated_in_two_is_large_negative() {
    assert_eq!(run(&["info depth 3 score mate -2\n", "bestmove e2e4\n"]), Ok(-32002));
}

#[test]
fn decode_score_pairs() {
    assert_eq!(decode_score(&chars("cp"), &chars("37")), Ok(37));
    assert_eq!(decode_score(&chars("cp"), &chars("-120")), Ok(-120));
    assert_eq!(decode_score(&chars("cp"), &chars("+5")), Ok(5));
    assert_eq!(decode_score(&chars("mate"), &chars("1")), Ok(31999));
    assert_eq!(decode_score(&chars("mate"), &chars("0")), Ok(-32000));
    assert_eq!(decode_score(&chars("mate"), &chars("-2")), Ok(-32002));
    assert_eq!(decode_score(&chars("mate"), &chars("-768")), Ok(-32768));
    assert_eq!(decode_score(&chars("lowerbound"), &chars("3")), Err(SearchError::ProtocolViolation));
}

#[test]
fn decode_score_malformed_numbers() {
    assert_eq!(decode_score(&chars("cp"), &chars("abc")), Err(SearchError::MalformedNumber));
    assert_eq!(decode_score(&chars("cp"), &chars("")), Err(SearchError::MalformedNumber));
    assert_eq!(decode_score(&chars("cp"), &chars("-")), Err(SearchError::MalformedNumber));
    assert_eq!(decode_score(&chars("cp"), &chars("32768")), Err(SearchError::MalformedNumber));
    assert_eq!(decode_score(&chars("cp"), &chars("-32768")), Ok(-32768));
    assert_eq!(decode_score(&chars("cp"), &chars("1000000")), Err(SearchError::MalformedNumber));
    assert_eq!(decode_score(&chars("mate"), &chars("-769")), Err(SearchError::MalformedNumber));
}

#[test]
fn bound_qualifier_keeps_score() {
    assert_eq!(
        run(&["info depth 5 score cp 10 upperbound nodes 100\n", "info depth 5 nodes 200\n", "bestmove d2d4\n"]),
        Ok(10)
    );
    assert_eq!(run(&["info score cp -4 lowerbound\n", "bestmove d2d4\n"]), Ok(-4));
}

#[test]
fn latest_score_wins() {
    assert_eq!(
        run(&["info depth 1 score cp 3\n", "info depth 2 score cp 8\n", "bestmove a2a3 ponder a7a6\n"]),
        Ok(8)
    );
}

#[test]
fn wdl_consumes_three_tokens() {
    assert_eq!(run(&["info score cp 5 wdl 1 2 3 score cp 7\n", "bestmove a2a3\n"]), Ok(7));
}

#[test]
fn pv_ends_the_scan() {
    assert_eq!(run(&["info score cp 5 pv score cp 9\n", "bestmove a2a3\n"]), Ok(5));
}

#[test]
fn unknown_token_skips_one() {
    assert_eq!(run(&["info depth score cp 9\n", "bestmove a2a3\n"]), Err(SearchError::MissingResult));
}

#[test]
fn unexpected_line_is_protocol_violation() {
    assert_eq!(run(&["readyok\n"]), Err(SearchError::ProtocolViolation));
    assert_eq!(run(&["info score nodes 5\n"]), Err(SearchError::ProtocolViolation));
    assert_eq!(run(&["info score cp"]), Err(SearchError::ProtocolViolation));
    assert_eq!(run(&["info score cp\n"]), Err(SearchError::MalformedNumber));
}

#[test]
fn completion_without_score_is_missing_result() {
    assert_eq!(run(&["bestmove e2e4\n"]), Err(SearchError::MissingResult));
}

#[test]
fn malformed_score_in_line() {
    assert_eq!(run(&["info score cp 1.5\n"]), Err(SearchError::MalformedNumber));
}

#[test]
fn failed_line_keeps_previous_score() {
    let mut scan = SearchScan::new();
    assert_eq!(scan.feed_line("info score cp 12\n"), Ok(SearchStep::Pending));
    assert_eq!(scan.feed_line("info score cp x\n"), Err(SearchError::MalformedNumber));
    assert_eq!(scan.score, Some(12));
    assert_eq!(scan.feed_line("bestmove e2e4\n"), Ok(SearchStep::Complete(12)));
}

#[test]
fn go_command_depth_only() {
    let l = SearchLimit { depth: Some(10), nodes: None };
    assert_eq!(l.go_command(), "go depth 10\n");
}

#[test]
fn go_command_nodes_only() {
    let l = SearchLimit { depth: None, nodes: Some(1000) };
    assert_eq!(l.go_command(), "go nodes 1000\n");
}

#[test]
fn go_command_both() {
    let l = SearchLimit { depth: Some(10), nodes: Some(1000) };
    assert_eq!(l.go_command(), "go depth 10 nodes 1000\n");
}

#[test]
fn go_command_extremes() {
    let l = SearchLimit { depth: Some(0), nodes: Some(u64::MAX) };
    assert_eq!(l.go_command(), "go depth 0 nodes 18446744073709551615\n");
}

#[test]
fn workload_splits_at_last_space() {
    let (fen, label) = split_workload("8/8/8/8/8/8/8/8 w - - 0 1 0.5").unwrap();
    assert_eq!(fen, "8/8/8/8/8/8/8/8 w - - 0 1");
    assert_eq!(label, "0.5");
}

#[test]
fn workload_label_is_trimmed() {
    let (fen, label) = split_workload("8/8/8/8/8/8/8/8 b - - 3 40 1.0\n").unwrap();
    assert_eq!(fen, "8/8/8/8/8/8/8/8 b - - 3 40");
    assert_eq!(label, "1.0");
}

#[test]
fn workload_without_space() {
    assert_eq!(split_workload("nospace"), None);
    assert_eq!(split_workload(""), None);
}

#[test]
fn result_line_format() {
    assert_eq!(format_result("8/8/8/8/8/8/8/8 w - - 0 1", "0.5", 37), "8/8/8/8/8/8/8/8 w - - 0 1 0.5 37\n");
    assert_eq!(format_result("f", "1", -32032), "f 1 -32032\n");
    assert_eq!(format_result("f", "0", 0), "f 0 0\n");
}

#[test]
fn option_commands() {
    assert_eq!(set_option_command("Hash=128"), Some("setoption name Hash value 128\n".to_string()));
    assert_eq!(set_option_command("a=b=c"), Some("setoption name a value b=c\n".to_string()));
    assert_eq!(set_option_command("Threads"), None);
    assert_eq!(set_option_command("=x"), Some("setoption name  value x\n".to_string()));
}

#[test]
fn fixed_commands() {
    assert_eq!(handshake_command(), "uci\n");
    assert_eq!(ready_command(), "isready\n");
    assert_eq!(new_game_command(), "ucinewgame\n");
    assert_eq!(position_command("8/8/8/8/8/8/8/8 w - - 0 1"), "position fen 8/8/8/8/8/8/8/8 w - - 0 1\n");
}

#[test]
fn marker_detection() {
    assert!(first_token_is("uciok\n", "uciok"));
    assert!(first_token_is("readyok", "readyok"));
    assert!(first_token_is("readyok\tx", "readyok"));
    assert!(!first_token_is("id name engine\n", "uciok"));
    assert!(!first_token_is(" uciok\n", "uciok"));
    assert!(!first_token_is("uciokay\n", "uciok"));
}

fn render(steps: Vec<stash_scoring::engine::Step>) -> Vec<String> {
    steps
        .into_iter()
        .map(|s| match s {
            stash_scoring::engine::Step::Send(c) => format!("send {}", c),
            stash_scoring::engine::Step::Await(m) => format!("await {}", m),
        })
        .collect()
}

#[test]
fn handshake_plan_skips_entries_without_equals() {
    let config = vec!["Hash=16".to_string(), "Ponder".to_string(), "Threads=2".to_string()];
    assert_eq!(
        render(stash_scoring::engine::handshake_steps(&config)),
        vec![
            "send uci\n",
            "await uciok",
            "send setoption name Hash value 16\n",
            "send isready\n",
            "await readyok",
            "send setoption name Threads value 2\n",
            "send isready\n",
            "await readyok",
        ]
    );
}

#[test]
fn handshake_plan_without_options() {
    assert_eq!(render(stash_scoring::engine::handshake_steps(&vec![])), vec!["send uci\n", "await uciok"]);
}

#[test]
fn setup_plan() {
    assert_eq!(
        render(stash_scoring::engine::setup_steps("8/8/8/8/8/8/8/8 w - - 0 1")),
        vec![
            "send ucinewgame\n",
            "send isready\n",
            "await readyok",
            "send position fen 8/8/8/8/8/8/8/8 w - - 0 1\n",
            "send isready\n",
            "await readyok",
        ]
    );
}
