use qr2term::Color::{Dark, Light};
use qr2term::{print_qr, usize_sqrt, Color, Emission, QrError, Renderer, TermColor, LOWER_HALF};

fn g(glyph: char, fg: TermColor, bg: TermColor) -> Emission {
    Emission::Glyph { glyph, fg, bg }
}

fn glyphs(runs: &[Emission]) -> usize {
    runs.iter().filter(|e| matches!(e, Emission::Glyph { .. })).count()
}

fn newlines(runs: &[Emission]) -> usize {
    runs.iter().filter(|e| matches!(e, Emission::Newline)).count()
}

fn draw(pixels: &[Color]) -> Vec<Emission> {
    let mut renderer = Renderer::new();
    renderer.print_matrix(pixels);
    renderer.into_runs()
}

#[test]
#[should_panic]
fn print_matrix_incorrect_size() {
    Renderer::new().print_matrix(&vec![Dark, Dark, Light, Light, Light, Dark]);
}

#[test]
fn non_square_length_is_rejected_by_sqrt() {
    assert_eq!(usize_sqrt(6), None);
}

#[test]
fn print_qr_too_long() {
    print_qr(&String::from_utf8(vec![b'a'; 8000]).unwrap())
        .err()
        .unwrap();
}

#[test]
fn too_long_text_gives_capacity_error_and_emits_nothing() {
    let text = String::from_utf8(vec![b'a'; 8000]).unwrap();
    assert_eq!(print_qr(&text), Err(QrError::DataTooLong));
    let mut renderer = Renderer::new();
    assert_eq!(renderer.print_qr(&text), Err(QrError::DataTooLong));
    assert!(renderer.runs().is_empty());
}

#[test]
fn two_by_two_matrix() {
    let runs = draw(&[Dark, Light, Light, Dark]);
    assert_eq!(
        runs,
        vec![
            g(LOWER_HALF, TermColor::White, TermColor::Black),
            g(LOWER_HALF, TermColor::Black, TermColor::White),
            Emission::Newline,
        ]
    );
}

#[test]
fn one_by_one_matrix() {
    let runs = draw(&[Color::Dark]);
    assert_eq!(runs, vec![g('\u{2584}', TermColor::White, TermColor::Black), Emission::Newline]);
}

#[test]
fn all_four_pairs() {
    // Top row: D D L L, bottom row: D L D L.
    let pixels = [
        Dark, Dark, Light, Light, //
        Dark, Light, Dark, Light, //
        Light, Light, Light, Light, //
        Light, Light, Light, Light,
    ];
    let runs = draw(&pixels);
    let light = g(' ', TermColor::Black, TermColor::White);
    assert_eq!(
        runs,
        vec![
            g(' ', TermColor::White, TermColor::Black),
            g(LOWER_HALF, TermColor::White, TermColor::Black),
            g(LOWER_HALF, TermColor::Black, TermColor::White),
            light,
            Emission::Newline,
            light,
            light,
            light,
            light,
            Emission::Newline,
        ]
    );
}

#[test]
fn odd_side_has_tail_row() {
    let pixels = [Light, Light, Light, Light, Light, Light, Dark, Light, Dark];
    let runs = draw(&pixels);
    let light = g(' ', TermColor::Black, TermColor::White);
    let dark = g(LOWER_HALF, TermColor::White, TermColor::Black);
    assert_eq!(
        runs,
        vec![light, light, light, Emission::Newline, dark, light, dark, Emission::Newline]
    );
}

#[test]
fn empty_matrix_emits_nothing() {
    assert!(draw(&[]).is_empty());
}

#[test]
fn emission_counts() {
    for w in 0..8usize {
        let pixels: Vec<Color> = (0..w * w)
            .map(|i| if i % 3 == 0 { Color::Dark } else { Color::Light })
            .collect();
        let runs = draw(&pixels);
        let half_up = (w + 1) / 2;
        assert_eq!(glyphs(&runs), w * half_up);
        assert_eq!(newlines(&runs), half_up);
    }
}

#[test]
fn drawing_is_deterministic() {
    let pixels = [Dark, Light, Dark, Light, Light, Dark, Dark, Dark, Light];
    assert_eq!(draw(&pixels), draw(&pixels));
}

#[test]
fn drawing_appends_to_earlier_runs() {
    let mut renderer = Renderer::new();
    renderer.print_matrix(&[Color::Light]);
    renderer.print_matrix(&[Color::Dark]);
    assert_eq!(
        renderer.runs().clone(),
        vec![
            g(' ', TermColor::Black, TermColor::White),
            Emission::Newline,
            g(LOWER_HALF, TermColor::White, TermColor::Black),
            Emission::Newline,
        ]
    );
}

#[test]
fn print_qr_lays_out_a_padded_code() {
    let runs = print_qr("hello").unwrap();
    // Version 1 is 21 modules wide; the quiet zone adds 2 on each side.
    let w = 21 + 2 * 2;
    let half_up = (w + 1) / 2;
    assert_eq!(glyphs(&runs), w * half_up);
    assert_eq!(newlines(&runs), half_up);
    // The first text line shows two quiet-zone rows: all light.
    let light = g(' ', TermColor::Black, TermColor::White);
    for e in &runs[..w] {
        assert_eq!(*e, light);
    }
    assert_eq!(runs[w], Emission::Newline);
    // Only the space and the lower half block appear.
    for e in &runs {
        if let Emission::Glyph { glyph, .. } = e {
            assert!(*glyph == ' ' || *glyph == LOWER_HALF);
        }
    }
    // Some module of the code itself is dark.
    assert!(runs.iter().any(|e| *e != light && *e != Emission::Newline));
}

#[test]
fn renderer_print_qr_matches_free_function() {
    let mut renderer = Renderer::new();
    assert_eq!(renderer.print_qr("hello"), Ok(()));
    assert_eq!(renderer.into_runs(), print_qr("hello").unwrap());
}

#[test]
fn print_code_pads_with_two_light_modules() {
    let mut renderer = Renderer::new();
    renderer.print_code(&[Dark]);
    let light = g(' ', TermColor::Black, TermColor::White);
    let dark_over_light = g(LOWER_HALF, TermColor::White, TermColor::Black);
    let mut expected = vec![light; 5];
    expected.push(Emission::Newline);
    expected.extend(vec![light, light, dark_over_light, light, light]);
    expected.push(Emission::Newline);
    expected.extend(vec![light; 5]);
    expected.push(Emission::Newline);
    assert_eq!(renderer.into_runs(), expected);
}
