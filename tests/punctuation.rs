use gateway_core::punctuation::normalize_punctuation_with_tags;

#[test]
fn converts_comma_in_chinese_context() {
    let text = "你好,世界";
    let normalized = normalize_punctuation_with_tags(text, "code,pre");
    assert_eq!(normalized, "你好，世界");
}

#[test]
fn keeps_english_comma_unchanged() {
    let text = "hello, world";
    let normalized = normalize_punctuation_with_tags(text, "code,pre");
    assert_eq!(normalized, text);
}

#[test]
fn skips_excluded_html_blocks() {
    let text = "你好,<code>a,b</code>,世界";
    let normalized = normalize_punctuation_with_tags(text, "code");
    assert_eq!(normalized, "你好，<code>a,b</code>，世界");
}

#[test]
fn default_tags_give_chinese_comma() {
    assert_eq!(normalize_punctuation_with_tags("你好,世界", ""), "你好，世界");
}

#[test]
fn default_tags_exclude_pre_when_list_is_blank() {
    let text = "你好,<pre>甲,乙</pre>,世界";
    assert_eq!(
        normalize_punctuation_with_tags(text, " , "),
        "你好，<pre>甲,乙</pre>，世界"
    );
}

#[test]
fn tag_list_is_trimmed() {
    let text = "你好,<pre>甲,乙</pre>,世界";
    assert_eq!(
        normalize_punctuation_with_tags(text, " code , pre "),
        "你好，<pre>甲,乙</pre>，世界"
    );
}

#[test]
fn unlisted_tag_is_normalized() {
    let text = "你好,<pre>甲乙,丙丁</pre>";
    assert_eq!(
        normalize_punctuation_with_tags(text, "code"),
        "你好，<pre>甲乙，丙丁</pre>"
    );
}

#[test]
fn unclosed_tag_is_not_excluded() {
    let text = "你好,<code>甲,乙";
    assert_eq!(normalize_punctuation_with_tags(text, "code"), "你好，<code>甲，乙");
}

#[test]
fn double_quotes_become_curly() {
    assert_eq!(
        normalize_punctuation_with_tags("他说\"你好\"", "code"),
        "他说\u{201C}你好\u{201D}"
    );
}

#[test]
fn single_quotes_become_curly() {
    assert_eq!(
        normalize_punctuation_with_tags("他说'你好'", "code"),
        "他说\u{2018}你好\u{2019}"
    );
}

#[test]
fn english_quotes_stay_straight() {
    let text = "he said \"hello\" and 'bye'";
    assert_eq!(normalize_punctuation_with_tags(text, "code"), text);
}

#[test]
fn apostrophe_is_kept() {
    let text = "我觉得it's好";
    assert_eq!(normalize_punctuation_with_tags(text, "code"), text);
}

#[test]
fn url_characters_are_verbatim() {
    let text = "你好http://a.cn/你,好";
    assert_eq!(normalize_punctuation_with_tags(text, "code"), text);
}

#[test]
fn code_fence_is_verbatim() {
    let text = "你好```甲,乙```";
    assert_eq!(normalize_punctuation_with_tags(text, "code"), text);
}

#[test]
fn empty_text_stays_empty() {
    assert_eq!(normalize_punctuation_with_tags("", "code"), "");
}

#[test]
fn normalizing_twice_changes_nothing_more() {
    let once = normalize_punctuation_with_tags("你好,<code>a,b</code>,世界", "code");
    let twice = normalize_punctuation_with_tags(&once, "code");
    assert_eq!(once, twice);
}

#[test]
fn excluded_span_is_copied_exactly() {
    let text = "中文,<style>\"x\",'y'</style>中文";
    let out = normalize_punctuation_with_tags(text, "style");
    assert!(out.contains("<style>\"x\",'y'</style>"));
    assert_eq!(out.chars().count(), text.chars().count());
}

#[test]
fn second_pass_can_convert_more() {
    let once = normalize_punctuation_with_tags("aaa,你 ,", "code");
    assert_eq!(once, "aaa,你 ，");
    assert_eq!(normalize_punctuation_with_tags(&once, "code"), "aaa，你 ，");
}

#[test]
fn converted_comma_can_tip_a_later_window() {
    let once = normalize_punctuation_with_tags("你你,ab,cdefgh", "code");
    assert_eq!(once, "你你，ab,cdefgh");
    assert_eq!(normalize_punctuation_with_tags(&once, "code"), "你你，ab，cdefgh");
}
