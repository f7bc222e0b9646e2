use amorfly_ai::rag::{chunk_text, chunks_to_index, default_model, embedding_missing_error, index_note, snippet};

#[test]
fn chunks_overlap_and_cover_the_text() {
    let text: String = (0..25).map(|i| char::from(b'a' + (i % 26) as u8)).collect();
    let c = chunk_text(&text, 10, 3);
    assert_eq!(c, vec!["abcdefghij", "hijklmnopq", "opqrstuvwx", "vwxy"]);
    let mut glued = c[0].clone();
    for piece in &c[1..] {
        glued.push_str(&piece[3..]);
    }
    assert_eq!(glued, text);
}

#[test]
fn short_text_is_one_chunk() {
    assert_eq!(chunk_text("kısa", 800, 100), vec!["kısa"]);
    assert!(chunk_text("", 800, 100).is_empty());
}

#[test]
fn blank_pieces_are_not_indexed() {
    let text = format!("{}{}", " ".repeat(800), "x");
    let c = chunks_to_index(&text);
    assert_eq!(c.len(), 1);
    assert!(c[0].ends_with('x'));
}

#[test]
fn model_and_snippet() {
    assert_eq!(default_model(""), "nomic-embed-text");
    assert_eq!(default_model("mxbai"), "mxbai");
    assert_eq!(snippet(&"ğ".repeat(300)).chars().count(), 240);
    assert_eq!(snippet("kısa"), "kısa");
    assert_eq!(index_note("r.pdf", 3), "'r.pdf' belgesini aranabilir hafızaya indeksledi (3 parça)");
    assert!(embedding_missing_error().starts_with("Embedding alınamadı"));
}
