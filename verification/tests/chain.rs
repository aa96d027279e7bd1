use st_narrative::sources::solana_rpc::{
    epoch_description, performance_description, program_activity, rpc_outcome, RpcFailure,
};

#[test]
fn an_error_outweighs_a_result() {
    match rpc_outcome(Some(1), Some("boom".to_string())) {
        Err(RpcFailure::Node(message)) => assert_eq!(message, "boom"),
        other => panic!("unexpected outcome: {:?}", other),
    }
    match rpc_outcome::<u8>(None, Some("boom".to_string())) {
        Err(RpcFailure::Node(message)) => assert_eq!(message, "boom"),
        other => panic!("unexpected outcome: {:?}", other),
    }
}

#[test]
fn a_result_without_error_is_returned() {
    assert!(matches!(rpc_outcome(Some(7), None), Ok(7)));
}

#[test]
fn a_reply_without_result_is_a_failure() {
    assert!(matches!(rpc_outcome::<u8>(None, None), Err(RpcFailure::MissingResult)));
}

#[test]
fn the_epoch_is_described_in_slots() {
    assert_eq!(
        epoch_description(1200, 432000, 250000000, Some(98765)),
        format!(
            "Slot {}/{}, absolute slot {}. {}",
            1200,
            432000,
            250000000,
            format!("Total transactions: {}", 98765)
        )
    );
    assert_eq!(epoch_description(0, 1, 2, None), "Slot 0/1, absolute slot 2. ");
}

#[test]
fn program_activity_is_worded_from_the_count() {
    let texts = program_activity("Jupiter", "JUP6Lkb", 100);
    assert_eq!(texts.title, "Jupiter: 100 recent transactions");
    assert_eq!(
        texts.description,
        "Program Jupiter (JUP6Lkb) had 100 transactions in recent history."
    );
    assert_eq!(texts.url, "https://explorer.solana.com/address/JUP6Lkb");
    assert_eq!(program_activity("P", "A", 0).title, "P: 0 recent transactions");
}

#[test]
fn the_performance_figures_name_their_samples() {
    assert_eq!(
        performance_description(10),
        "Average over 10 recent samples. Non-vote TPS indicates real user activity vs consensus overhead."
    );
    assert_eq!(
        performance_description(1),
        format!(
            "Average over {} recent samples. Non-vote TPS indicates real user activity vs consensus overhead.",
            1
        )
    );
}
