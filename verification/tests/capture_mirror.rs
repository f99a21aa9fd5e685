use gotoo_pixel_engine::{mirror_page, DEFAULT_BIND_ADDRESS};

#[test]
fn mirror_page_embeds_framebuffer_dimensions() {
    let page = mirror_page(180, 320);
    assert!(page.contains("width=\"180\""));
    assert!(page.contains("height=\"320\""));
    assert!(page.contains("const width=180, height=320"));
}

#[test]
fn mirror_page_preserves_aspect_ratio() {
    let page = mirror_page(180, 320);
    assert!(page.contains("Math.min(window.innerWidth/width,window.innerHeight/height)"));
    assert!(page.contains("canvas.style.width=(width*scale)+'px'"));
    assert!(page.contains("canvas.style.height=(height*scale)+'px'"));
}

#[test]
fn mirror_page_uses_single_stream_connection() {
    let page = mirror_page(180, 320);
    assert!(page.contains("fetch('/stream.rgba'"));
    assert!(page.contains("response.body.getReader()"));
    assert!(!page.contains("requestAnimationFrame(frame)"));
}

#[test]
fn default_bind_accepts_windows_to_wsl_connections() {
    assert_eq!(DEFAULT_BIND_ADDRESS, "0.0.0.0:7878");
}

#[test]
fn mirror_page_fills_every_placeholder() {
    let page = mirror_page(7, 0);
    assert!(!page.contains("__WIDTH__"));
    assert!(!page.contains("__HEIGHT__"));
    assert!(page.contains("<canvas id=\"game\" width=\"7\" height=\"0\"></canvas>"));
    assert!(page.starts_with("<!doctype html>"));
    assert!(page.ends_with("</html>\n"));
}
