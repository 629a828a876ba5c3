use elfo::supervisor::error_chain::ErrorChain;

fn chain(messages: &[&str]) -> ErrorChain {
    ErrorChain {
        messages: messages.iter().map(|s| s.to_string()).collect(),
    }
}

fn messages_of(error: &anyhow::Error) -> Vec<String> {
    error.chain().map(|cause| cause.to_string()).collect()
}

#[test]
fn trivial_error_chain() {
    let error = anyhow::Error::msg("oops");
    let chain = ErrorChain { messages: messages_of(&error) };
    assert_eq!(chain.to_string(), "oops");
}

#[test]
fn error_chain() {
    let innermost = anyhow::Error::msg("innermost");
    let inner = innermost.context("inner");
    let outer = inner.context("outer");
    let chain = ErrorChain { messages: messages_of(&outer) };
    assert_eq!(chain.to_string(), "outer: inner: innermost");
}

#[test]
fn error_chain_of_texts() {
    assert_eq!(chain(&["a", "b"]).to_string(), "a: b");
}
