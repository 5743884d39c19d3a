use wallflow::color::Rgb;
use wallflow::extractor::{ColorExtractor, ExtractError, ExtractionOptions};
use wallflow::sampler::Bitmap;
use wallflow::scheme::ColorScheme;
use wallflow::sort::sort_by_luminance;
use wallflow::templates::TemplateEngine;

// 0.1, 0.5, 0.8 and 0.9 of full intensity on the 16-bit channel scale.
const TENTH: u16 = 6554;
const HALF: u16 = 32768;
const EIGHT_TENTHS: u16 = 52428;
const NINE_TENTHS: u16 = 58982;
const FULL: u16 = 65535;

fn solid(width: u32, height: u32, left: [u8; 4], right: [u8; 4]) -> Bitmap {
    let mut rgba = Vec::new();
    for _y in 0..height {
        for x in 0..width {
            let p = if x < width / 2 { left } else { right };
            rgba.extend_from_slice(&p);
        }
    }
    Bitmap { width, height, rgba }
}

#[test]
fn test_extraction_options_default() {
    let opts = ExtractionOptions::default();
    assert_eq!(opts.color_count, 16);
    assert_eq!(opts.prefers_dark, None);
    assert_eq!(opts.contrast_ratio, 3000);
}

#[test]
fn test_kmeans_simple() {
    let extractor = ColorExtractor::new();
    let pixels = vec![
        Rgb::new(FULL, 0, 0),
        Rgb::new(FULL, TENTH, 0),
        Rgb::new(0, FULL, 0),
        Rgb::new(0, FULL, TENTH),
        Rgb::new(0, 0, FULL),
        Rgb::new(TENTH, 0, FULL),
    ];

    let centroids = extractor.kmeans(&pixels, 3);
    assert_eq!(centroids.len(), 3);
}

#[test]
fn test_rgb_hex() {
    let color = Rgb::new(FULL, HALF, 0);
    assert_eq!(color.hex(), "#FF7F00");
}

#[test]
fn test_rgb_luminance() {
    let white = Rgb::new(FULL, FULL, FULL);
    let black = Rgb::new(0, 0, 0);
    assert_eq!(white.luminance(), FULL);
    assert_eq!(black.luminance(), 0);
}

#[test]
fn test_rgb_lightened() {
    let color = Rgb::new(HALF, HALF, HALF);
    let lighter = color.lightened(500);
    assert!(lighter.r > color.r);
    assert!(lighter.g > color.g);
    assert!(lighter.b > color.b);
}

#[test]
fn lighten_keeps_full_channels_and_raises_others() {
    let c = Rgb::new(FULL, 0, 65534).lightened(1);
    assert_eq!(c.r, FULL);
    assert_eq!(c.g, 66);
    assert_eq!(c.b, FULL);
}

#[test]
fn transforms_exact_values() {
    let c = Rgb::new(HALF, 1000, 0);
    assert_eq!(c.darkened(600), Rgb::new(13107, 400, 0));
    assert_eq!(Rgb::new(60000, 10, 10).darkened(1500), Rgb::new(0, 0, 0));
    let gray = Rgb::new(1000, 1000, 1000);
    assert_eq!(gray.saturated(1500), gray);
    let red = Rgb::new(40000, 20000, 20000);
    // luminance = (299 * 40000 + 701 * 20000) / 1000 = 25980
    assert_eq!(red.luminance(), 25980);
    assert_eq!(red.saturated(2000), Rgb::new(54020, 14020, 14020));
}

#[test]
fn saturation_and_hue_values() {
    assert_eq!(Rgb::new(0, 0, 0).saturation(), 0);
    assert_eq!(Rgb::new(FULL, 0, 0).saturation(), FULL);
    assert_eq!(Rgb::new(FULL, 0, 0).hue(), 0);
    assert_eq!(Rgb::new(0, FULL, 0).hue(), 12000);
    assert_eq!(Rgb::new(0, 0, FULL).hue(), 24000);
    assert_eq!(Rgb::new(FULL, 0, FULL).hue(), 30000);
    assert_eq!(Rgb::new(HALF, HALF, HALF).hue(), 0);
    assert!(Rgb::new(FULL, 0, 0).saturation_is_above(2));
    assert!(Rgb::new(HALF, HALF, HALF).saturation_is_below(4));
}

#[test]
fn text_encodings() {
    let c = Rgb::from_u8(255, 16, 1);
    assert_eq!(c.hex(), "#FF1001");
    assert_eq!(c.hex_strip(), "FF1001");
    assert_eq!(c.rgb_string(), "255, 16, 1");
    assert_eq!(c.xrgba_string(), "ff/10/01/ff");
    assert_eq!(Rgb::new(FULL, 0, HALF).rgba_string(25), "1.000000 0.000000 0.500008 0.25");
    assert_eq!(Rgb::new(TENTH, TENTH, TENTH).hex(), "#191919");
    assert_eq!(Rgb::new(NINE_TENTHS, NINE_TENTHS, NINE_TENTHS).hex(), "#E5E5E5");
}

#[test]
fn distance_is_squared_euclidean() {
    let a = Rgb::new(3, 0, 0);
    let b = Rgb::new(0, 4, 0);
    assert_eq!(a.distance_squared(&b), 25);
    assert_eq!(Rgb::new(0, 0, 0).distance_squared(&Rgb::new(FULL, FULL, FULL)), 3 * 65535 * 65535);
}

#[test]
fn kmeans_with_few_samples_returns_them() {
    let extractor = ColorExtractor::new();
    let pixels = vec![Rgb::new(1, 2, 3), Rgb::new(4, 5, 6)];
    assert_eq!(extractor.kmeans(&pixels, 2), pixels);
    assert_eq!(extractor.kmeans(&pixels, 5), pixels);
}

#[test]
fn refine_moves_centroids_to_cluster_means() {
    let extractor = ColorExtractor::new();
    let pixels = vec![
        Rgb::new(0, 0, 0),
        Rgb::new(10, 10, 10),
        Rgb::new(60000, 60000, 60000),
        Rgb::new(60010, 60010, 60010),
    ];
    let r = extractor.refine(&pixels, vec![Rgb::new(0, 0, 0), Rgb::new(FULL, FULL, FULL)]);
    assert_eq!(r, vec![Rgb::new(5, 5, 5), Rgb::new(60005, 60005, 60005)]);
}

#[test]
fn weighted_selection_picks_first_exceeding_total() {
    let w = vec![0u64, 5, 0, 7];
    assert_eq!(wallflow::cluster::select_weighted(&w, 0), 1);
    assert_eq!(wallflow::cluster::select_weighted(&w, 4), 1);
    assert_eq!(wallflow::cluster::select_weighted(&w, 5), 3);
    assert_eq!(wallflow::cluster::select_weighted(&w, 11), 3);
    assert_eq!(wallflow::cluster::select_weighted(&w, 12), 0);
}

#[test]
fn luminance_sort_is_ascending_and_stable() {
    let white = Rgb::new(FULL, FULL, FULL);
    let red = Rgb::new(FULL, 0, 0);
    let black = Rgb::new(0, 0, 0);
    let black2 = Rgb::new(0, 0, 0);
    let sorted = sort_by_luminance(&vec![white, red, black, black2]);
    assert_eq!(sorted, vec![black, black2, red, white]);
}

#[test]
fn palette_is_complete_for_gray_centroids() {
    let extractor = ColorExtractor::new();
    let grays = vec![Rgb::new(TENTH, TENTH, TENTH), Rgb::new(HALF, HALF, HALF)];
    let opts = ExtractionOptions::default();
    let scheme = extractor.generate_scheme("w".to_string(), grays, &opts);
    assert_eq!(scheme.colors.len(), 16);
    assert!(scheme.is_dark);
    assert_eq!(scheme.colors[0], scheme.background);
    assert_eq!(scheme.colors[7], scheme.foreground);
    assert_eq!(scheme.colors[15], scheme.foreground);
    assert_eq!(scheme.colors[8], scheme.background.lightened(150));
    assert_eq!(scheme.cursor, scheme.foreground);
}

#[test]
fn palette_pads_with_default_accents() {
    let extractor = ColorExtractor::new();
    let accents = extractor.select_terminal_colors(&vec![], 6, true, 3000);
    assert_eq!(
        accents,
        vec![
            Rgb::new(EIGHT_TENTHS, 13107, 13107),
            Rgb::new(13107, EIGHT_TENTHS, 13107),
            Rgb::new(EIGHT_TENTHS, EIGHT_TENTHS, 13107),
            Rgb::new(13107, 26214, EIGHT_TENTHS),
            Rgb::new(EIGHT_TENTHS, 13107, EIGHT_TENTHS),
            Rgb::new(13107, EIGHT_TENTHS, EIGHT_TENTHS),
        ]
    );
}

#[test]
fn empty_centroids_use_fallback_background() {
    let extractor = ColorExtractor::new();
    let mut opts = ExtractionOptions::default();
    opts.prefers_dark = Some(false);
    let scheme = extractor.generate_scheme("w".to_string(), vec![], &opts);
    assert!(!scheme.is_dark);
    assert_eq!(scheme.background, Rgb::new(62258, 62258, 62258));
    assert_eq!(scheme.foreground, Rgb::new(TENTH, TENTH, TENTH));
    assert_eq!(scheme.colors.len(), 16);
}

#[test]
fn light_scheme_uses_lightest_centroid() {
    let extractor = ColorExtractor::new();
    let cents = vec![Rgb::new(40000, 40000, 40000), Rgb::new(60000, 60000, 60000)];
    let opts = ExtractionOptions::default();
    let scheme = extractor.generate_scheme("w".to_string(), cents, &opts);
    assert!(!scheme.is_dark);
    assert_eq!(scheme.background, Rgb::new(60000, 60000, 60000).lightened(600));
}

#[test]
fn cursor_is_first_saturated_centroid() {
    let extractor = ColorExtractor::new();
    let cents = vec![Rgb::new(1000, 1000, 1000), Rgb::new(30000, 0, 0), Rgb::new(0, 50000, 0)];
    let opts = ExtractionOptions::default();
    let scheme = extractor.generate_scheme("w".to_string(), cents, &opts);
    assert_eq!(scheme.cursor, Rgb::new(30000, 0, 0));
}

#[test]
fn red_blue_image_scenario() {
    let extractor = ColorExtractor::new();
    let img = solid(4, 4, [255, 0, 0, 255], [0, 0, 255, 255]);
    let mut opts = ExtractionOptions::default();
    opts.color_count = 3;
    let scheme = extractor.extract_from_image(&img, "red-blue".to_string(), &opts).ok().unwrap();
    assert!(scheme.is_dark);
    assert_eq!(scheme.colors.len(), 16);
    assert_eq!(scheme.wallpaper, "red-blue");
    // every fourth pixel of every fourth row: only the top-left (red) one
    assert_eq!(scheme.colors[0], Rgb::new(FULL, 0, 0).darkened(600));

    let dense = ColorExtractor { max_dimension: 200, sample_step: 1, max_iterations: 20 };
    let samples = dense.sample_pixels(&img);
    assert_eq!(samples.len(), 16);
    let cents = dense.kmeans(&samples, 3);
    assert_eq!(cents.len(), 3);
    assert!(cents.contains(&Rgb::new(FULL, 0, 0)));
    assert!(cents.contains(&Rgb::new(0, 0, FULL)));
    let scheme = dense.extract_from_image(&img, "red-blue".to_string(), &opts).ok().unwrap();
    assert!(scheme.is_dark);
    assert_eq!(scheme.colors[0], Rgb::new(0, 0, FULL).darkened(600));
}

#[test]
fn empty_image_is_an_error() {
    let extractor = ColorExtractor::new();
    let img = Bitmap { width: 0, height: 0, rgba: vec![] };
    let r = extractor.extract_from_image(&img, "none".to_string(), &ExtractionOptions::default());
    assert_eq!(r.err(), Some(ExtractError::NoValidPixels));
    assert_eq!(ExtractError::NoValidPixels.message(), "No valid pixels found in image");
}

#[test]
fn sampling_filters_then_falls_back() {
    let extractor = ColorExtractor::new();
    // 40x40 mid-gray opaque image: 100 usable samples on the stride grid
    let img = solid(40, 40, [128, 128, 128, 255], [128, 128, 128, 255]);
    let s = extractor.sample_pixels(&img);
    assert_eq!(s.len(), 100);
    assert_eq!(s[0], Rgb::from_u8(128, 128, 128));
    // near-black pixels are filtered out, so the unfiltered grid is used
    let dark = solid(40, 40, [2, 2, 2, 255], [2, 2, 2, 255]);
    let s = extractor.sample_pixels(&dark);
    assert_eq!(s.len(), 100);
    assert_eq!(s[0], Rgb::from_u8(2, 2, 2));
    // transparent half of a larger image is skipped while 100 remain usable
    let half = solid(80, 40, [0, 200, 0, 10], [0, 200, 0, 255]);
    let s = extractor.sample_pixels(&half);
    assert_eq!(s.len(), 100);
}

#[test]
fn large_images_are_scaled_down() {
    let extractor = ColorExtractor::new();
    let img = solid(400, 100, [10, 200, 30, 255], [10, 200, 30, 255]);
    let small = extractor.resize_image(&img);
    assert_eq!((small.width, small.height), (200, 50));
    assert_eq!(small.rgba.len(), 4 * 200 * 50);
    assert_eq!(&small.rgba[0..4], &[10, 200, 30, 255]);
    let fits = solid(20, 10, [1, 2, 3, 4], [1, 2, 3, 4]);
    assert_eq!(extractor.resize_image(&fits).rgba, fits.rgba);
}

#[test]
fn shell_and_css_exports() {
    let scheme = ColorScheme::new(
        "/w.jpg".to_string(),
        true,
        Rgb::new(0, 0, 0),
        Rgb::new(FULL, FULL, FULL),
        Rgb::new(FULL, 0, 0),
        vec![Rgb::new(0, 0, FULL), Rgb::new(0, FULL, 0)],
    );
    assert_eq!(scheme.alpha, 100);
    assert_eq!(
        scheme.to_shell_format(),
        "wallpaper='/w.jpg'\nbackground='#000000'\nforeground='#FFFFFF'\ncursor='#FF0000'\ncolor0='#0000FF'\ncolor1='#00FF00'"
    );
    assert_eq!(
        scheme.to_css_format(),
        ":root {\n  --background: #000000;\n  --foreground: #FFFFFF;\n  --cursor: #FF0000;\n  --color0: #0000FF;\n  --color1: #00FF00;\n}"
    );
}

fn test_scheme() -> ColorScheme {
    ColorScheme::new(
        "/path/to/wallpaper.jpg".to_string(),
        true,
        Rgb::new(TENTH, TENTH, TENTH),
        Rgb::new(NINE_TENTHS, NINE_TENTHS, NINE_TENTHS),
        Rgb::new(EIGHT_TENTHS, 13107, 13107),
        vec![Rgb::new(0, 0, 0); 16],
    )
}

fn has_key(vars: &[(String, String)], key: &str) -> bool {
    vars.iter().any(|(k, _)| k == key)
}

fn value_of<'a>(vars: &'a [(String, String)], key: &str) -> &'a str {
    &vars.iter().find(|(k, _)| k == key).unwrap().1
}

#[test]
fn test_build_variables() {
    let scheme = test_scheme();
    let vars = TemplateEngine::build_variables(&scheme);

    assert!(has_key(&vars, "background"));
    assert!(has_key(&vars, "foreground"));
    assert!(has_key(&vars, "color0"));
    assert!(has_key(&vars, "color15"));
    assert!(has_key(&vars, "color0.strip"));
    assert!(has_key(&vars, "background.alpha_dec"));
}

#[test]
fn variable_values() {
    let vars = TemplateEngine::build_variables(&test_scheme());
    assert_eq!(vars.len(), 7 + 16 * 9 + 18);
    assert_eq!(value_of(&vars, "background.alpha_dec"), "1.00");
    assert_eq!(value_of(&vars, "alpha"), "100");
    assert_eq!(value_of(&vars, "cursor.rgb"), "204, 51, 51");
    assert_eq!(value_of(&vars, "color3.r"), "0.0000000000");
    assert_eq!(value_of(&vars, "foreground.r"), "0.9000076295");
    assert_eq!(value_of(&vars, "color15.rgba_25"), "0.000000 0.000000 0.000000 0.25");
}

#[test]
fn test_render() {
    let scheme = test_scheme();
    let vars = TemplateEngine::build_variables(&scheme);

    let template = "background: {background}\nforeground: {foreground}";
    let rendered = TemplateEngine::render(template, &vars);

    assert!(rendered.contains("#191919"));
    assert!(rendered.contains("#E5E5E5"));
}

#[test]
fn test_render_preserves_unknown() {
    let vars = Vec::new();
    let template = "known and {unknown}";
    let rendered = TemplateEngine::render(template, &vars);

    assert_eq!(rendered, "known and {unknown}");
}

#[test]
fn render_replaces_every_occurrence() {
    let vars = vec![("a".to_string(), "1".to_string()), ("b".to_string(), "{a}".to_string())];
    assert_eq!(TemplateEngine::render("{a}{b}{a}", &vars), "1{a}1");
}

#[test]
fn thin_images_still_extract() {
    let extractor = ColorExtractor::new();
    let img = solid(1000, 1, [200, 30, 30, 255], [200, 30, 30, 255]);
    let small = extractor.resize_image(&img);
    assert_eq!((small.width, small.height), (200, 1));
    let scheme = extractor
        .extract_from_image(&img, "thin".to_string(), &ExtractionOptions::default())
        .ok()
        .unwrap();
    assert_eq!(scheme.colors.len(), 16);
    let tall = solid(1, 1000, [10, 10, 200, 255], [10, 10, 200, 255]);
    assert_eq!(
        (extractor.resize_image(&tall).width, extractor.resize_image(&tall).height),
        (1, 200)
    );
    let empty = Bitmap { width: 0, height: 5, rgba: vec![] };
    let r = extractor.extract_from_image(&empty, "none".to_string(), &ExtractionOptions::default());
    assert_eq!(r.err(), Some(ExtractError::NoValidPixels));
}

#[test]
fn resize_keeps_the_aspect_ratio() {
    let extractor = ColorExtractor::new();
    let img = solid(1000, 301, [1, 2, 3, 255], [1, 2, 3, 255]);
    let small = extractor.resize_image(&img);
    assert_eq!((small.width, small.height), (200, 60));
    assert_eq!(small.rgba.len(), 4 * 200 * 60);
    let square = solid(1000, 999, [1, 2, 3, 255], [1, 2, 3, 255]);
    let small = extractor.resize_image(&square);
    assert_eq!((small.width, small.height), (200, 200));
    let three = solid(1000, 3, [1, 2, 3, 255], [1, 2, 3, 255]);
    let small = extractor.resize_image(&three);
    assert_eq!((small.width, small.height), (200, 1));
}

#[test]
fn seeding_picks_new_colors_while_weight_remains() {
    let extractor = ColorExtractor::new();
    let pixels = vec![Rgb::new(FULL, 0, 0), Rgb::new(0, FULL, 0), Rgb::new(0, 0, FULL)];
    for _ in 0..20 {
        let seeds = extractor.kmeans_plus_plus_init(&pixels, 3);
        assert_eq!(seeds.len(), 3);
        assert!(seeds[0] != seeds[1] && seeds[0] != seeds[2] && seeds[1] != seeds[2]);
    }
    let same = vec![Rgb::new(7, 7, 7), Rgb::new(7, 7, 7)];
    assert_eq!(extractor.kmeans_plus_plus_init(&same, 2), vec![Rgb::new(7, 7, 7); 2]);
}

#[test]
fn zero_clusters_of_no_samples() {
    let extractor = ColorExtractor::new();
    assert_eq!(extractor.kmeans(&vec![], 0), vec![]);
}
