use identicon_service::handler::{handle_request, HttpMethod, ResponseBody, GUIDE_TEXT};

fn body_bytes(body: &ResponseBody) -> &[u8] {
    match body {
        ResponseBody::Bytes(b) => b,
        ResponseBody::Text(_) => panic!("expected an image body"),
    }
}

fn body_text(body: &ResponseBody) -> &str {
    match body {
        ResponseBody::Text(t) => t,
        ResponseBody::Bytes(_) => panic!("expected a text body"),
    }
}

#[test]
fn method_not_allowed() {
    assert_eq!(handle_request(HttpMethod::Post, "/", "hash=test").status, 405);
    assert_eq!(handle_request(HttpMethod::Head, "/", "hash=test").status, 405);
}

#[test]
fn unknown_path_not_found() {
    assert_eq!(handle_request(HttpMethod::Get, "/icons", "hash=test").status, 404);
}

#[test]
fn empty_seed_yields_guide() {
    let r = handle_request(HttpMethod::Get, "/", "");
    assert_eq!(r.status, 200);
    assert_eq!(body_text(&r.body), GUIDE_TEXT);

    let r = handle_request(HttpMethod::Get, "/", "hash=");
    assert_eq!(r.status, 200);
    assert_eq!(body_text(&r.body), GUIDE_TEXT);
}

#[test]
fn malformed_enum_is_bad_request() {
    let r = handle_request(HttpMethod::Get, "/", "hash=test&format=bmp");
    assert_eq!(r.status, 400);
}

#[test]
fn malformed_escape_is_bad_request() {
    let r = handle_request(HttpMethod::Get, "/", "hash=a%zz");
    assert_eq!(r.status, 400);
}

#[test]
fn grid_larger_than_scale_is_unprocessable() {
    let r = handle_request(HttpMethod::Get, "/", "hash=t&size=501&scale=500");
    assert_eq!(r.status, 422);
    let r = handle_request(HttpMethod::Get, "/", "hash=t&size=500&scale=500");
    assert_eq!(r.status, 200);
}

#[test]
fn format_dispatch() {
    let r = handle_request(HttpMethod::Get, "/", "hash=test&format=jpeg");
    assert_eq!(r.status, 200);
    assert_eq!(r.content_type, "image/jpeg");

    let r = handle_request(HttpMethod::Get, "/", "hash=test&format=png");
    assert_eq!(r.status, 200);
    assert_eq!(r.content_type, "image/png");

    let r = handle_request(HttpMethod::Get, "/", "hash=test");
    assert_eq!(r.status, 200);
    assert_eq!(r.content_type, "image/png");
}

#[test]
fn defaults_give_500_by_500_png() {
    let r = handle_request(HttpMethod::Get, "/", "hash=test");
    assert_eq!(r.status, 200);
    let img = image::load_from_memory(body_bytes(&r.body)).unwrap().to_rgb8();
    assert_eq!(img.width(), 500);
    assert_eq!(img.height(), 500);
}

#[test]
fn jpeg_body_decodes() {
    let r = handle_request(HttpMethod::Get, "/", "hash=test&format=jpeg");
    let img = image::load_from_memory(body_bytes(&r.body)).unwrap().to_rgb8();
    assert_eq!(img.width(), 500);
    assert_eq!(img.height(), 500);
}

#[test]
fn pipeline_is_deterministic() {
    let a = handle_request(HttpMethod::Get, "/", "hash=magic&format=png");
    let b = handle_request(HttpMethod::Get, "/", "hash=magic&format=png");
    assert_eq!(a.status, 200);
    assert_eq!(b.status, 200);
    assert_eq!(body_bytes(&a.body), body_bytes(&b.body));
}

#[test]
fn size_zero_gives_border_only_image() {
    let r = handle_request(HttpMethod::Get, "/", "hash=test&size=0&scale=20&border=2");
    assert_eq!(r.status, 200);
    let img = image::load_from_memory(body_bytes(&r.body)).unwrap().to_rgb8();
    assert_eq!(img.width(), 20);
    assert_eq!(img.height(), 20);
    for y in 0..20 {
        for x in 0..20 {
            assert_eq!(img.get_pixel(x, y).0, [240, 240, 240]);
        }
    }
}

#[test]
fn degenerate_border_gives_all_background() {
    let r = handle_request(HttpMethod::Get, "/", "hash=test&border=1000&scale=500");
    assert_eq!(r.status, 200);
    let img = image::load_from_memory(body_bytes(&r.body)).unwrap().to_rgb8();
    assert_eq!(img.width(), 500);
    assert_eq!(img.height(), 500);
    for y in 0..500 {
        for x in 0..500 {
            assert_eq!(img.get_pixel(x, y).0, [240, 240, 240], "at ({x},{y})");
        }
    }
}

#[test]
fn end_to_end_example() {
    let r = handle_request(HttpMethod::Get, "/", "hash=magic&size=5&scale=500&border=50&format=png");
    assert_eq!(r.status, 200);
    assert_eq!(r.content_type, "image/png");
    assert_eq!(r.cache_control, "public,max-age=36000");
    assert!(r.cors);

    let img = image::load_from_memory(body_bytes(&r.body)).unwrap().to_rgb8();
    assert_eq!(img.width(), 500);
    assert_eq!(img.height(), 500);

    // The canvas is symmetric about its vertical center axis.
    for y in 0..500 {
        for x in 0..500 {
            assert_eq!(img.get_pixel(x, y).0, img.get_pixel(499 - x, y).0);
        }
    }

    // The border band is background.
    for i in 0..500 {
        assert_eq!(img.get_pixel(i, 25).0, [240, 240, 240]);
        assert_eq!(img.get_pixel(25, i).0, [240, 240, 240]);
    }

    // The non-border region decomposes into a 5x5 layout of 80-pixel
    // blocks, each of a single color.
    for brow in 0..5u32 {
        for bcol in 0..5u32 {
            let x0 = 50 + bcol * 80;
            let y0 = 50 + brow * 80;
            let c = img.get_pixel(x0, y0).0;
            for dy in 0..80 {
                for dx in 0..80 {
                    assert_eq!(img.get_pixel(x0 + dx, y0 + dy).0, c);
                }
            }
        }
    }
}
