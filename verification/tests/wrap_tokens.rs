use subrass::renderer::wrap_tokens::{wrap_tokens, WrapWords};

fn texts(w: &WrapWords) -> Vec<(String, String, bool, bool, bool)> {
    w.words
        .iter()
        .map(|x| (x.prefix.clone(), x.text.clone(), x.preceded_by_space, x.is_drawing, x.glued_to_prev))
        .collect()
}

fn t(p: &str, s: &str, spaced: bool, drawing: bool, glued: bool) -> (String, String, bool, bool, bool) {
    (p.to_string(), s.to_string(), spaced, drawing, glued)
}

#[test]
fn wrap_tokens_words_carry_their_blocks() {
    let w = wrap_tokens("{\\b1}Hello {\\i1}big world", 0);
    assert_eq!(
        texts(&w),
        vec![
            t("{\\b1}", "Hello", false, false, false),
            t("{\\i1}", "big", true, false, false),
            t("", "world", true, false, false),
        ]
    );
    assert_eq!(w.run_starts, vec![0]);
}

#[test]
fn wrap_tokens_hard_breaks_start_runs() {
    let w = wrap_tokens("one\\Ntwo three", 0);
    assert_eq!(texts(&w).len(), 3);
    assert_eq!(w.run_starts, vec![0, 1]);
    let soft = wrap_tokens("one\\ntwo", 0);
    assert_eq!(soft.run_starts, vec![0]);
    assert_eq!(texts(&soft), vec![t("", "one", false, false, false), t("", "two", true, false, false)]);
    let hard = wrap_tokens("one\\ntwo", 2);
    assert_eq!(hard.run_starts, vec![0, 1]);
}

#[test]
fn wrap_tokens_block_between_words_keeps_no_space() {
    let w = wrap_tokens("{\\k10}Ka{\\k20}ra", 0);
    assert_eq!(
        texts(&w),
        vec![t("{\\k10}", "Ka", false, false, false), t("{\\k20}", "ra", false, false, false)]
    );
}

#[test]
fn wrap_tokens_drawing_stays_whole() {
    let w = wrap_tokens("{\\p1}m 0 0 l 10 0{\\p0} after", 0);
    assert_eq!(
        texts(&w),
        vec![t("{\\p1}", "m 0 0 l 10 0{\\p0}", false, true, false), t("", "after", true, false, false)]
    );
}

#[test]
fn wrap_tokens_escapes() {
    let w = wrap_tokens("a\\hb c\\q", 0);
    assert_eq!(texts(&w), vec![t("", "a\u{a0}b", false, false, false), t("", "c\\q", true, false, false)]);
}

#[test]
fn wrap_tokens_cjk_words_split_into_glued_pieces() {
    let w = wrap_tokens("x 日本語", 0);
    assert_eq!(
        texts(&w),
        vec![
            t("", "x", false, false, false),
            t("", "日", true, false, false),
            t("", "本", false, false, true),
            t("", "語", false, false, true),
        ]
    );
    let w2 = wrap_tokens("日本\\N語", 0);
    assert_eq!(w2.run_starts, vec![0, 2]);
}
