use dotlanth::parse_and_validate;
use dotlanth::rt::RuntimeContext;
use dotlanth::sec::{Capability, CapabilitySet};

#[test]
fn runtime_context_derives_capabilities_from_dotdsl_only() {
    let document = parse_and_validate(
        "\ndot 0.1\napp \"x\"\nallow log\n\napi \"public\"\n  route GET \"/hello\"\n    respond 200 \"ok\"\n  end\nend\n",
        "inline.dot",
    )
    .expect("document must validate");

    let ctx = RuntimeContext::from_dot_dsl(&document).expect("capabilities must parse");
    assert!(ctx.capabilities().contains(Capability::Log));
    assert!(!ctx.capabilities().contains(Capability::NetHttpListen));
}

#[test]
fn runtime_context_rejects_unknown_capability_values() {
    // The parser accepts any capability token; translating grants fails on
    // the first unknown one.
    let document = dotlanth::parser::parse(
        "dot 0.1\napp \"x\"\nallow nope\napi \"a\"\n  route GET \"/x\"\n    respond 200 \"ok\"\n  end\nend\n",
        "inline.dot",
    )
    .expect("document must parse");

    let error = RuntimeContext::from_dot_dsl(&document).expect_err("unknown capability must fail");
    assert_eq!(error.display_string(), "unknown capability `nope`");
}

#[test]
fn runtime_context_from_explicit_set_keeps_the_grants() {
    let mut set = CapabilitySet::empty();
    set.insert(Capability::NetHttpListen);
    let ctx = RuntimeContext::new(set);
    assert!(!ctx.capabilities().contains(Capability::Log));
    assert!(ctx.capabilities().contains(Capability::NetHttpListen));
}
