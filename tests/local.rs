use llama_chat::error::LlamaError;
use llama_chat::local::{full_prompt, CachePosition, ResponseStream};

#[test]
fn marker_is_prepended_for_images() {
    assert_eq!(full_prompt("Describe it", "<__media__>", 1), "<__media__> Describe it");
}

#[test]
fn marker_not_repeated() {
    assert_eq!(full_prompt("Look: <__media__> here", "<__media__>", 2), "Look: <__media__> here");
}

#[test]
fn no_marker_without_images() {
    assert_eq!(full_prompt("Where might this be?", "<__media__>", 0), "Where might this be?");
}

#[test]
fn cache_reset_returns_to_zero() {
    let mut c = CachePosition::new(2048);
    assert_eq!(c.record_prompt_eval(300), Ok(()));
    assert_eq!(c.n_past(), 300);
    c.reset();
    assert_eq!(c.n_past(), 0);
    assert_eq!(c.n_ctx(), 2048);
}

#[test]
fn prompt_eval_out_of_range_is_rejected() {
    let mut c = CachePosition::new(100);
    assert_eq!(c.record_prompt_eval(40), Ok(()));
    assert!(matches!(c.record_prompt_eval(39), Err(LlamaError::Eval(_))));
    assert!(matches!(c.record_prompt_eval(101), Err(LlamaError::Eval(_))));
    assert!(matches!(c.record_prompt_eval(-1), Err(LlamaError::Eval(_))));
    assert_eq!(c.n_past(), 40);
    assert_eq!(c.record_prompt_eval(100), Ok(()));
    assert_eq!(c.n_past(), 100);
}

#[test]
fn end_of_generation_stops_without_fragment() {
    let mut c = CachePosition::new(64);
    c.record_prompt_eval(10).unwrap();
    let mut g = ResponseStream::new(&c);
    for (i, piece) in ["Hel", "lo"].iter().enumerate() {
        assert_eq!(g.on_sampled(&c, false), Some(Ok(10 + i)));
        assert_eq!(g.on_evaluated(&mut c, Ok(piece.to_string())), Some(Ok(piece.to_string())));
    }
    assert_eq!(g.on_sampled(&c, true), None);
    assert!(g.is_done());
    assert_eq!(g.emitted(), 2);
    assert_eq!(c.n_past(), 12);
    assert_eq!(g.on_sampled(&c, false), None);
    assert_eq!(c.n_past(), 12);
}

#[test]
fn full_context_is_an_eval_error() {
    let mut c = CachePosition::new(11);
    c.record_prompt_eval(10).unwrap();
    let mut g = ResponseStream::new(&c);
    assert_eq!(g.on_sampled(&c, false), Some(Ok(10)));
    assert_eq!(g.on_evaluated(&mut c, Ok("x".to_string())), Some(Ok("x".to_string())));
    assert!(matches!(g.on_sampled(&c, false), Some(Err(LlamaError::Eval(_)))));
    assert!(g.is_done());
    assert_eq!(c.n_past(), 11);
}

#[test]
fn failed_evaluation_ends_generation() {
    let mut c = CachePosition::new(64);
    let mut g = ResponseStream::new(&c);
    assert_eq!(g.on_sampled(&c, false), Some(Ok(0)));
    let err = LlamaError::Eval("decode failed".to_string());
    assert_eq!(g.on_evaluated(&mut c, Err(err.clone())), Some(Err(err)));
    assert!(g.is_done());
    assert_eq!(c.n_past(), 0);
    assert_eq!(g.emitted(), 0);
}
