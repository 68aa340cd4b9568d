use xxkb::border::{apply_border, BorderStyle, Rgb};
use xxkb::bundle::{all, lookup};
use xxkb::icons::{icon_candidates, resolve_icon, CacheKey, IconSource, IconsError, ResolvedIcon};
use xxkb::pixels::{premultiply_rgba, rgba_to_bgra_premul, PixelBuffer};

fn pixel(buf: &PixelBuffer, x: u32, y: u32) -> [u8; 4] {
    let i = (y as usize) * buf.stride + (x as usize) * 4;
    [buf.data[i], buf.data[i + 1], buf.data[i + 2], buf.data[i + 3]]
}

#[test]
fn rgb_parse_accepts_hash_and_bare() {
    assert_eq!(Rgb::parse_hex("#102030"), Some(Rgb(0x10, 0x20, 0x30)));
    assert_eq!(Rgb::parse_hex("AABBCC"), Some(Rgb(0xAA, 0xBB, 0xCC)));
    assert_eq!(Rgb::parse_hex("xyz"), None);
    assert_eq!(Rgb::parse_hex("#1234"), None);
}

#[test]
fn rgb_parse_takes_six_hex_digits_only() {
    assert_eq!(Rgb::parse_hex("+F+F+F"), None);
    assert_eq!(Rgb::parse_hex("+1+2+3"), None);
    assert_eq!(Rgb::parse_hex("-10203"), None);
    assert_eq!(Rgb::parse_hex("##102030"), None);
    assert_eq!(Rgb::parse_hex("#ééé"), None);
    assert_eq!(Rgb::parse_hex("#aBcDeF"), Some(Rgb(0xAB, 0xCD, 0xEF)));
}

#[test]
fn disabled_border_is_a_noop() {
    let mut buf = PixelBuffer::solid(8, 8, [0, 0, 0, 0]);
    let before = buf.data.clone();
    apply_border(&mut buf, &BorderStyle::default());
    assert_eq!(buf.data, before);
}

#[test]
fn one_pixel_border_paints_the_outline() {
    let mut buf = PixelBuffer::solid(6, 6, [0, 0, 0, 0]);
    apply_border(&mut buf, &BorderStyle { enabled: true, color: Rgb(255, 0, 0), width_px: 1 });
    assert_eq!(pixel(&buf, 0, 0), [0, 0, 255, 255]);
    assert_eq!(pixel(&buf, 5, 5), [0, 0, 255, 255]);
    assert_eq!(pixel(&buf, 2, 2), [0, 0, 0, 0]);
}

#[test]
fn two_pixel_border_paints_two_rings() {
    let mut buf = PixelBuffer::solid(8, 8, [0, 0, 0, 0]);
    apply_border(&mut buf, &BorderStyle { enabled: true, color: Rgb(0, 255, 0), width_px: 2 });
    assert_eq!(pixel(&buf, 1, 1), [0, 255, 0, 255]);
    assert_eq!(pixel(&buf, 6, 6), [0, 255, 0, 255]);
    assert_eq!(pixel(&buf, 4, 4), [0, 0, 0, 0]);
}

#[test]
fn border_wider_than_image_is_clamped() {
    let mut buf = PixelBuffer::solid(4, 4, [0, 0, 0, 0]);
    apply_border(&mut buf, &BorderStyle { enabled: true, color: Rgb(255, 255, 255), width_px: 999 });
    for y in 0..4 {
        for x in 0..4 {
            assert_eq!(pixel(&buf, x, y), [255, 255, 255, 255]);
        }
    }
}

#[test]
fn border_is_idempotent_and_respects_padding() {
    let mut buf = PixelBuffer { width: 3, height: 3, stride: 16, data: vec![7; 48] };
    let style = BorderStyle::new(true, Rgb(1, 2, 3), 1);
    apply_border(&mut buf, &style);
    let once = buf.clone();
    apply_border(&mut buf, &style);
    assert_eq!(buf, once);
    assert_eq!(pixel(&buf, 0, 0), [3, 2, 1, 255]);
    assert_eq!(pixel(&buf, 1, 1), [7, 7, 7, 7]);
    for y in 0..3usize {
        for b in 12..16usize {
            assert_eq!(buf.data[y * 16 + b], 7, "padding byte changed");
        }
    }
}

#[test]
fn one_pixel_wide_image_gets_no_border() {
    let mut buf = PixelBuffer::solid(1, 5, [9, 9, 9, 255]);
    let before = buf.clone();
    apply_border(&mut buf, &BorderStyle::new(true, Rgb(0, 0, 0), 3));
    assert_eq!(buf, before);
}

#[test]
fn every_builtin_resolves() {
    for (name, id, bytes) in all() {
        let (id2, bytes2) = lookup(name).unwrap();
        assert_eq!(id, id2);
        assert_eq!(bytes, bytes2);
        assert!(!bytes.is_empty(), "{name} bytes are empty");
        assert!(id.ends_with(".svg"));
    }
}

#[test]
fn unknown_returns_none() {
    assert!(lookup("zz").is_none());
}

#[test]
fn full_set_present() {
    let names: Vec<_> = all().into_iter().map(|(n, _, _)| n).collect();
    for expected in ["en", "ru", "ua", "by", "kz", "de", "fr"] {
        assert!(names.contains(&expected), "missing builtin: {expected}");
    }
}

#[test]
fn builtin_flags_are_svg_documents() {
    for (_, _, bytes) in all() {
        let text = std::str::from_utf8(bytes).unwrap();
        assert!(text.starts_with("<svg") && text.ends_with("</svg>"));
    }
}

#[test]
fn solid_buffer_has_expected_dimensions() {
    let buf = PixelBuffer::solid(16, 16, [255, 0, 0, 255]);
    assert_eq!(buf.width, 16);
    assert_eq!(buf.height, 16);
    assert_eq!(buf.stride, 64);
    assert_eq!(buf.data.len(), 64 * 16);
    assert_eq!(&buf.data[0..4], &[0, 0, 255, 255]);
}

#[test]
fn solid_buffer_is_premultiplied() {
    let buf = PixelBuffer::solid(2, 1, [200, 100, 50, 128]);
    assert_eq!(pixel(&buf, 1, 0), [25, 50, 100, 128]);
}

#[test]
fn rgba_is_only_reordered() {
    let buf = rgba_to_bgra_premul(&[10, 20, 30, 255, 100, 0, 0, 128, 1, 2], 2, 1);
    assert_eq!(buf.data, vec![30, 20, 10, 255, 0, 0, 100, 128]);
    assert_eq!(buf.stride, 8);
    let once = rgba_to_bgra_premul(&[100, 0, 0, 128], 1, 1);
    assert_eq!(once.data, vec![0, 0, 100, 128]);
}

#[test]
fn straight_alpha_is_premultiplied_once() {
    let pre = premultiply_rgba(&[10, 20, 30, 255, 200, 100, 50, 128, 7, 9]);
    assert_eq!(pre, vec![10, 20, 30, 255, 100, 50, 25, 128, 7, 9]);
    let buf = rgba_to_bgra_premul(&pre, 2, 1);
    assert_eq!(buf.data, vec![30, 20, 10, 255, 25, 50, 100, 128]);
}

#[test]
fn resolve_prefers_svg_when_configured() {
    let existing = vec!["/icons/en.svg".to_owned(), "/icons/en.png".to_owned()];
    let r = resolve_icon("en", &["/icons".to_owned()], true, None, &existing).unwrap();
    assert!(matches!(&r.source, IconSource::File(p) if p == "/icons/en.svg"));
    assert!(r.is_svg);
}

#[test]
fn resolve_prefers_png_when_svg_disabled() {
    let existing = vec!["/icons/en.svg".to_owned(), "/icons/en.png".to_owned()];
    let r = resolve_icon("en", &["/icons".to_owned()], false, None, &existing).unwrap();
    assert!(matches!(&r.source, IconSource::File(p) if p == "/icons/en.png"));
    assert!(!r.is_svg);
}

#[test]
fn resolve_falls_back_to_builtin() {
    let r = resolve_icon("en", &["/empty".to_owned(), "builtin".into()], true, None, &[]).unwrap();
    assert!(matches!(r.source, IconSource::Embedded { .. }));
    assert!(r.is_svg);
}

#[test]
fn resolve_returns_not_found_when_missing() {
    let err = resolve_icon("zz_unknown", &["/empty".to_owned()], true, None, &[]).err().unwrap();
    assert!(matches!(err, IconsError::NotFound { name } if name == "zz_unknown"));
}

#[test]
fn candidates_follow_search_order_and_expand_home() {
    let c = icon_candidates(
        "ru",
        &["~/flags".to_owned(), "builtin".to_owned(), "system".to_owned()],
        false,
        Some("/home/u".to_owned()),
    );
    assert_eq!(c.len(), 10);
    assert_eq!(c[0], "/home/u/flags/ru.png");
    assert_eq!(c[4], "/home/u/flags/ru.svg");
    assert_eq!(c[5], "/usr/share/xxkb/icons/ru.png");
    let r = resolve_icon("ru", &["~/flags".to_owned()], true, Some("/home/u".to_owned()), &c[3..5]).unwrap();
    assert!(matches!(&r.source, IconSource::File(p) if p == "/home/u/flags/ru.svg"));
}

#[test]
fn cache_ids_name_the_source() {
    let file = ResolvedIcon { source: IconSource::File("/x/en.png".to_owned()), is_svg: false };
    assert_eq!(file.source.cache_id(), "file:/x/en.png");
    let (id, bytes) = lookup("de").unwrap();
    let emb = ResolvedIcon { source: IconSource::Embedded { id, bytes }, is_svg: true };
    assert_eq!(emb.source.cache_id(), "builtin:de.svg");
    let k1 = CacheKey::new(&emb, 16, BorderStyle::default());
    let k2 = CacheKey::new(&emb, 16, BorderStyle::new(true, Rgb(1, 1, 1), 1));
    assert_ne!(k1, k2);
    assert_eq!(k1, CacheKey::new(&emb, 16, BorderStyle::default()));
}
