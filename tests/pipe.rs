use anni_store::pipe::{Phase, PipeAction, PipeAdapter, PipeEvent};

#[test]
fn source_bytes_reach_encoder_in_order() {
    let source: Vec<u8> = (0..1000u32).map(|i| (i * 7 % 251) as u8).collect();
    let mut p = PipeAdapter::new();
    let mut fed: Vec<u8> = Vec::new();
    let mut delivered: Vec<u8> = Vec::new();
    for (k, chunk) in source.chunks(97).enumerate() {
        if let PipeAction::WriteInput(b) = p.on_event(PipeEvent::SourceData(chunk.to_vec())) {
            fed.extend(b);
        } else {
            panic!("source data was not written");
        }
        if k % 3 == 0 {
            match p.on_event(PipeEvent::EncodedData(vec![k as u8])) {
                PipeAction::Deliver(b) => delivered.extend(b),
                _ => panic!("encoded data was not delivered"),
            }
        }
    }
    assert!(matches!(p.on_event(PipeEvent::SourceEnd), PipeAction::CloseInput));
    assert!(matches!(p.on_event(PipeEvent::SourceEnd), PipeAction::Nothing));
    assert_eq!(fed.len(), 1000);
    assert_eq!(fed, source);
    assert_eq!(delivered, vec![0, 3, 6, 9]);
    assert!(matches!(p.on_event(PipeEvent::EncodedEnd), PipeAction::Finish));
    assert_eq!(p.state().phase, Phase::Finished);
}

#[test]
fn cancellation_kills_encoder() {
    let mut p = PipeAdapter::new();
    assert!(matches!(p.on_event(PipeEvent::SourceData(vec![1, 2, 3])), PipeAction::WriteInput(_)));
    assert!(matches!(p.on_event(PipeEvent::Cancelled), PipeAction::KillChild));
    assert_eq!(p.state().phase, Phase::Killed);
    assert!(matches!(p.on_event(PipeEvent::SourceData(vec![4])), PipeAction::Nothing));
    assert!(matches!(p.on_event(PipeEvent::Cancelled), PipeAction::Nothing));
}

#[test]
fn failure_is_reported() {
    let mut p = PipeAdapter::new();
    assert!(matches!(p.on_event(PipeEvent::Failed), PipeAction::Fail));
    assert_eq!(p.state().phase, Phase::Failed);
    assert!(matches!(p.on_event(PipeEvent::EncodedData(vec![1])), PipeAction::Nothing));
}
