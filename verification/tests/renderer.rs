use gosub_engine::wasm::renderer::RendererOptions;

#[test]
fn renderer_options_keep_their_values() {
    let o = RendererOptions::new("id".to_string(), "<p>".to_string(), "https://x".to_string(), true);
    assert_eq!(o.id, "id");
    assert_eq!(o.html, "<p>");
    assert_eq!(o.url, "https://x");
    assert!(o.debug);
}
