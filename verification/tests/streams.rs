use flake_cli::process::Collector;
use flake_cli::process::OutputChunk;

fn s(x: &str) -> String {
    String::from(x)
}

#[test]
fn interleaved_chunks_keep_per_stream_order() {
    // a synthetic child emitting a known interleaved sequence
    let emitted = vec![
        OutputChunk::Stdout(s("out 1")),
        OutputChunk::Stderr(s("err 1")),
        OutputChunk::Stdout(s("out 2")),
        OutputChunk::Stdout(s("out 3")),
        OutputChunk::Stderr(s("err 2")),
    ];
    let mut collector = Collector::new(true, true);
    let mut echoed: Vec<(bool, String)> = Vec::new();
    for chunk in emitted {
        let is_stdout = matches!(chunk, OutputChunk::Stdout(_));
        let line = match &chunk {
            OutputChunk::Stdout(m) => m.clone(),
            OutputChunk::Stderr(m) => m.clone(),
        };
        let echo = collector.push(chunk);
        if echo {
            echoed.push((is_stdout, line));
        }
    }
    let result = collector.finish(0);
    assert_eq!(result.stdout, vec![s("out 1"), s("out 2"), s("out 3")]);
    assert_eq!(result.stderr, vec![s("err 1"), s("err 2")]);
    assert_eq!(result.code, 0);
    // the combined sequence observed by echo matches the emission order
    assert_eq!(
        echoed,
        vec![
            (true, s("out 1")),
            (false, s("err 1")),
            (true, s("out 2")),
            (true, s("out 3")),
            (false, s("err 2")),
        ]
    );
}

#[test]
fn echo_follows_the_per_stream_flags() {
    let mut collector = Collector::new(true, false);
    assert_eq!(collector.push(OutputChunk::Stdout(s("a"))), true);
    assert_eq!(collector.push(OutputChunk::Stderr(s("b"))), false);
    let mut collector = Collector::new(false, true);
    assert_eq!(collector.push(OutputChunk::Stdout(s("a"))), false);
    assert_eq!(collector.push(OutputChunk::Stderr(s("b"))), true);
}

#[test]
fn silent_collection_still_accumulates() {
    let mut collector = Collector::new(false, false);
    assert_eq!(collector.push(OutputChunk::Stdout(s("only"))), false);
    let result = collector.finish(17);
    assert_eq!(result.stdout, vec![s("only")]);
    assert!(result.stderr.is_empty());
    assert_eq!(result.code, 17);
}
