use skakarlak::reorder_info_words;

#[test]
fn info_words_reorder() {
    let parts: Vec<String> = ["info", "depth", "6", "pv", "e7e6", "score", "cp", "-1222"]
        .iter()
        .map(|s| s.to_string())
        .collect();
    let r = reorder_info_words(&parts);
    assert_eq!(r.join(" "), "info depth 6 score cp -1222 pv e7e6");
}
