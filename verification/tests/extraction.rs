use st_narrative::claude::extract_json;

#[test]
fn extract_json_from_markdown() {
    let input = "Here's the result:\n```json\n{\"key\": \"value\"}\n```\n";
    assert_eq!(extract_json(input), "{\"key\": \"value\"}");
}

#[test]
fn extract_json_raw() {
    let input = "Sure! {\"key\": \"value\"} done.";
    assert_eq!(extract_json(input), "{\"key\": \"value\"}");
}

#[test]
fn extract_json_plain() {
    let input = "{\"key\": \"value\"}";
    assert_eq!(extract_json(input), "{\"key\": \"value\"}");
}

#[test]
fn tagged_fence_yields_trimmed_interior() {
    assert_eq!(extract_json("Result:\n```json\n{\"a\":1}\n```\n"), "{\"a\":1}");
}

#[test]
fn prose_around_braces_is_dropped() {
    assert_eq!(extract_json("Sure, here: {\"a\":1} thanks"), "{\"a\":1}");
}

#[test]
fn bare_json_is_returned_unchanged() {
    assert_eq!(extract_json("{\"a\":1}"), "{\"a\":1}");
}

#[test]
fn untagged_fence_with_object_is_taken() {
    assert_eq!(extract_json("see\n```\n  {\"a\": [1, 2]}  \n```\nbye {x}"), "{\"a\": [1, 2]}");
}

#[test]
fn untagged_fence_with_array_is_taken() {
    assert_eq!(extract_json("```\n[1, 2, 3]\n``` and {\"b\":2}"), "[1, 2, 3]");
}

#[test]
fn untagged_fence_without_json_falls_back_to_braces() {
    assert_eq!(extract_json("```\nlet x = 1;\n``` then {\"b\":2} end"), "{\"b\":2}");
}

#[test]
fn fence_with_other_tag_falls_back_to_braces() {
    // The interior of the first fenced block starts with its tag, not with JSON.
    assert_eq!(extract_json("```python\n{\"a\":1}\n```"), "{\"a\":1}");
}

#[test]
fn tagged_fence_wins_over_earlier_plain_fence() {
    let input = "```\n[0]\n```\n```json\n{\"a\":1}\n```";
    assert_eq!(extract_json(input), "{\"a\":1}");
}

#[test]
fn unclosed_tagged_fence_falls_back_to_braces() {
    assert_eq!(extract_json("```json\n{\"a\":1}"), "{\"a\":1}");
}

#[test]
fn empty_tagged_fence_yields_empty_text() {
    assert_eq!(extract_json("```json\n \t\n``` {\"a\":1}"), "");
}

#[test]
fn span_runs_from_first_open_to_last_close() {
    assert_eq!(extract_json("a {\"x\": {\"y\": 1}} b } c"), "{\"x\": {\"y\": 1}} b }");
}

#[test]
fn text_without_braces_is_returned_verbatim() {
    assert_eq!(extract_json("no json here"), "no json here");
    assert_eq!(extract_json(""), "");
    assert_eq!(extract_json("only { open"), "only { open");
    assert_eq!(extract_json("only } close"), "only } close");
}

#[test]
fn close_before_open_is_returned_verbatim() {
    assert_eq!(extract_json("} and then {"), "} and then {");
}

#[test]
fn single_pair_of_braces() {
    assert_eq!(extract_json("{}"), "{}");
    assert_eq!(extract_json("x{}y"), "{}");
}

#[test]
fn interior_is_trimmed_of_unicode_whitespace() {
    let input = "```json\u{a0}\u{3000}\r\n{\"a\":1}\u{2003}\u{2028}\n```";
    assert_eq!(extract_json(input), "{\"a\":1}");
}

#[test]
fn non_ascii_text_keeps_its_characters() {
    let input = "Voilà — résultat: {\"clé\": \"valeur ✓\"} fin ✓";
    assert_eq!(extract_json(input), "{\"clé\": \"valeur ✓\"}");
    let fenced = "日本語\n```json\n{\"名前\": \"値\"}\n```\n終わり";
    assert_eq!(extract_json(fenced), "{\"名前\": \"値\"}");
}

#[test]
fn closing_fence_directly_after_tag() {
    assert_eq!(extract_json("```json```"), "");
}

#[test]
fn four_backticks_open_a_fence_at_the_first_three() {
    // The first three backticks open the block; its interior starts with the fourth.
    assert_eq!(extract_json("````\n{\"a\":1}\n```"), "{\"a\":1}");
}

#[test]
fn a_later_fenced_block_with_json_is_taken() {
    assert_eq!(extract_json("```\nhello\n```\n```\n[1]\n```"), "[1]");
}

#[test]
fn the_first_of_several_json_blocks_is_taken() {
    let input = "```\nnotes\n```\nthen\n```\n{\"a\": 1}\n```\nand\n```\n[2]\n```";
    assert_eq!(extract_json(input), "{\"a\": 1}");
}

#[test]
fn a_later_block_with_json_wins_over_braces_in_prose() {
    let input = "see {this}\n```\nplain text\n```\n```\n  [1, 2]  \n```\n";
    assert_eq!(extract_json(input), "[1, 2]");
}

#[test]
fn a_block_with_another_tag_does_not_hide_a_later_json_block() {
    let input = "```python\nprint(1)\n```\n```\n{\"a\":1}\n```";
    assert_eq!(extract_json(input), "{\"a\":1}");
}

#[test]
fn a_closing_fence_opens_no_block() {
    // The second fence closes the first block, so the text behind it stands in no block.
    assert_eq!(extract_json("```\nhello\n```\n[1]\n```"), "```\nhello\n```\n[1]\n```");
    assert_eq!(extract_json("```\nhello\n```\n{\"a\":1}\n```"), "{\"a\":1}");
}

#[test]
fn an_unclosed_later_block_is_no_block() {
    assert_eq!(extract_json("```\nhello\n```\n```\n[1]\n"), "```\nhello\n```\n```\n[1]\n");
}

#[test]
fn many_blocks_without_json_fall_back_to_the_whole_reply() {
    let input = "```\na\n```\n```\nb\n```\n```\nc\n```";
    assert_eq!(extract_json(input), input);
}
