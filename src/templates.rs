//! Template rendering: the variables a color scheme provides and the
//! substitution of `{name}` placeholders.

use vstd::prelude::*;
use vstd::string::*;
use crate::color::{channel_millionths, six_decimals, two_decimals, Rgb};
use crate::scheme::{hex_text, ColorScheme};
use crate::text::{
    decimal, decimal_padded, push_char, push_decimal, push_decimal_padded, push_str, replace_all,
    replace_str,
};

verus! {

/// Description of a template bundle, read from the JSON file inside it.
pub struct TemplateManifest {
    pub id: String,
    pub name: String,
    pub author: String,
    pub description: String,
    pub category: String,
    pub icon: String,
    pub detection: Detection,
    pub template: TemplateFile,
    pub install: InstallConfig,
    /// Signal to send after rendering, if any.
    pub reload: Option<ReloadConfig>,
    pub ui: UiConfig,
}

/// Which process to signal after rendering.
pub struct ReloadConfig {
    /// Signal name, e.g. `USR1`.
    pub signal: String,
    pub process_name: String,
}

/// How to tell that an application is installed.
pub struct Detection {
    pub bundle_ids: Vec<String>,
    pub paths: Vec<String>,
}

/// The template file in a bundle and the name of what it renders to.
pub struct TemplateFile {
    pub file: String,
    pub output_name: String,
}

/// Where and how the rendered file is installed.
pub struct InstallConfig {
    /// `symlink` or `copy`.
    pub method: String,
    pub create_directories: bool,
    pub destinations: Vec<String>,
}

/// Help shown to the user.
pub struct UiConfig {
    pub description: String,
    pub config_snippet: Option<String>,
    pub config_path: Option<String>,
    pub help_url: Option<String>,
}

/// Result of rendering a template bundle.
pub struct RenderedTemplate {
    pub output_path: String,
    pub reload: Option<ReloadConfig>,
}

/// Renders templates from color schemes.
pub struct TemplateEngine;

/// A channel as a fraction of full intensity with ten decimals, rounded to nearest.
pub open spec fn ten_decimals(v: int) -> Seq<char> {
    let m = ((v * 10000000000 + 32767) / 65535) as nat;
    decimal(m / 10000000000) + seq!['.'] + decimal_padded(m % 10000000000, 10)
}

pub open spec fn rgba_text(c: Rgb, alpha_hundredths: nat) -> Seq<char> {
    six_decimals(channel_millionths(c.r as int)) + seq![' '] + six_decimals(
        channel_millionths(c.g as int),
    ) + seq![' '] + six_decimals(channel_millionths(c.b as int)) + seq![' '] + two_decimals(
        alpha_hundredths,
    )
}

/// The nine variables of terminal color `i`.
pub open spec fn color_vars(i: nat, c: Rgb) -> Seq<(Seq<char>, Seq<char>)> {
    let k = "color"@ + decimal(i);
    seq![
        (k, hex_text(c)),
        (k + ".strip"@, c.hex_digits()),
        (k + ".rgb"@, c.rgb_text()),
        (k + ".xrgba"@, c.xrgba_text()),
        (k + ".rgba"@, rgba_text(c, 100)),
        (k + ".rgba_25"@, rgba_text(c, 25)),
        (k + ".r"@, ten_decimals(c.r as int)),
        (k + ".g"@, ten_decimals(c.g as int)),
        (k + ".b"@, ten_decimals(c.b as int)),
    ]
}

/// The variables of the first `n` terminal colors.
pub open spec fn colors_vars(colors: Seq<Rgb>, n: int) -> Seq<(Seq<char>, Seq<char>)>
    decreases n,
{
    if n <= 0 {
        Seq::empty()
    } else {
        colors_vars(colors, n - 1) + color_vars((n - 1) as nat, colors[n - 1])
    }
}

/// The variables of one special color (`background`, `foreground`, `cursor`).
pub open spec fn special_vars(name: Seq<char>, c: Rgb) -> Seq<(Seq<char>, Seq<char>)> {
    seq![
        (name + ".strip"@, c.hex_digits()),
        (name + ".rgb"@, c.rgb_text()),
        (name + ".rgba"@, rgba_text(c, 100)),
        (name + ".r"@, ten_decimals(c.r as int)),
        (name + ".g"@, ten_decimals(c.g as int)),
        (name + ".b"@, ten_decimals(c.b as int)),
    ]
}

/// Every variable a scheme provides, in order.
pub open spec fn scheme_vars(s: ColorScheme) -> Seq<(Seq<char>, Seq<char>)> {
    head_vars_spec(s) + colors_vars(s.colors@, s.colors.len() as int) + special_vars("background"@, s.background)
        + special_vars("foreground"@, s.foreground) + special_vars("cursor"@, s.cursor)
}

pub open spec fn vars_view(v: Seq<(String, String)>) -> Seq<(Seq<char>, Seq<char>)> {
    v.map_values(|p: (String, String)| (p.0@, p.1@))
}

/// `t` with the placeholders of the first `n` variables substituted, in order.
pub open spec fn render_spec(t: Seq<char>, vars: Seq<(Seq<char>, Seq<char>)>, n: int) -> Seq<char>
    decreases n,
{
    if n <= 0 {
        t
    } else {
        replace_all(
            render_spec(t, vars, n - 1),
            seq!['{'] + vars[n - 1].0 + seq!['}'],
            vars[n - 1].1,
        )
    }
}

fn ten_decimal_text(v: u16) -> (r: String)
    ensures
        r@ == ten_decimals(v as int),
{
    let m: u64 = (v as u64 * 10000000000 + 32767) / 65535;
    let mut s = String::new();
    push_decimal(&mut s, m / 10000000000);
    push_char(&mut s, '.');
    push_decimal_padded(&mut s, m % 10000000000, 10);
    assert(s@ =~= ten_decimals(v as int));
    s
}

fn text_of(s: &str) -> (r: String)
    ensures
        r@ == s@,
{
    String::from_str(s)
}

fn joined(a: &str, b: &str) -> (r: String)
    ensures
        r@ == a@ + b@,
{
    let mut s = String::from_str(a);
    push_str(&mut s, b);
    s
}

fn push_var(vars: &mut Vec<(String, String)>, k: String, v: String)
    ensures
        vars_view(final(vars)@) == vars_view(old(vars)@).push((k@, v@)),
{
    vars.push((k, v));
    assert(vars_view(final(vars)@) =~= vars_view(old(vars)@).push((k@, v@)));
}

fn push_special(vars: &mut Vec<(String, String)>, name: &str, c: &Rgb)
    ensures
        vars_view(final(vars)@) == vars_view(old(vars)@) + special_vars(name@, *c),
{
    let ghost start = vars_view(vars@);
    push_var(vars, joined(name, ".strip"), c.hex_strip());
    push_var(vars, joined(name, ".rgb"), c.rgb_string());
    push_var(vars, joined(name, ".rgba"), c.rgba_string(100));
    push_var(vars, joined(name, ".r"), ten_decimal_text(c.r));
    push_var(vars, joined(name, ".g"), ten_decimal_text(c.g));
    push_var(vars, joined(name, ".b"), ten_decimal_text(c.b));
    assert(vars_view(vars@) =~= start + special_vars(name@, *c));
}

fn push_color(vars: &mut Vec<(String, String)>, i: usize, c: &Rgb)
    ensures
        vars_view(final(vars)@) == vars_view(old(vars)@) + color_vars(i as nat, *c),
{
    let ghost start = vars_view(vars@);
    let mut k = String::from_str("color");
    push_decimal(&mut k, i as u64);
    let ks = k.as_str();
    push_var(vars, text_of(ks), c.hex());
    push_var(vars, joined(ks, ".strip"), c.hex_strip());
    push_var(vars, joined(ks, ".rgb"), c.rgb_string());
    push_var(vars, joined(ks, ".xrgba"), c.xrgba_string());
    push_var(vars, joined(ks, ".rgba"), c.rgba_string(100));
    push_var(vars, joined(ks, ".rgba_25"), c.rgba_string(25));
    push_var(vars, joined(ks, ".r"), ten_decimal_text(c.r));
    push_var(vars, joined(ks, ".g"), ten_decimal_text(c.g));
    push_var(vars, joined(ks, ".b"), ten_decimal_text(c.b));
    assert(vars_view(vars@) =~= start + color_vars(i as nat, *c));
}

/// The variables that come before the terminal colors.
pub open spec fn head_vars_spec(s: ColorScheme) -> Seq<(Seq<char>, Seq<char>)> {
    seq![
        ("wallpaper"@, s.wallpaper@),
        ("alpha"@, decimal(s.alpha as nat)),
        ("background"@, hex_text(s.background)),
        ("foreground"@, hex_text(s.foreground)),
        ("cursor"@, hex_text(s.cursor)),
        ("background.alpha"@, decimal(s.alpha as nat)),
        ("background.alpha_dec"@, two_decimals(s.alpha as nat)),
    ]
}

fn head_vars(scheme: &ColorScheme) -> (r: Vec<(String, String)>)
    ensures
        vars_view(r@) == head_vars_spec(*scheme),
{
    let mut vars: Vec<(String, String)> = Vec::new();
    let mut alpha = String::new();
    push_decimal(&mut alpha, scheme.alpha as u64);
    let mut alpha_dec = String::new();
    push_decimal(&mut alpha_dec, (scheme.alpha / 100) as u64);
    push_char(&mut alpha_dec, '.');
    push_decimal_padded(&mut alpha_dec, (scheme.alpha % 100) as u64, 2);
    assert(alpha_dec@ =~= two_decimals(scheme.alpha as nat));
    push_var(&mut vars, text_of("wallpaper"), scheme.wallpaper.clone());
    push_var(&mut vars, text_of("alpha"), alpha.clone());
    push_var(&mut vars, text_of("background"), scheme.background.hex());
    push_var(&mut vars, text_of("foreground"), scheme.foreground.hex());
    push_var(&mut vars, text_of("cursor"), scheme.cursor.hex());
    push_var(&mut vars, text_of("background.alpha"), alpha);
    push_var(&mut vars, text_of("background.alpha_dec"), alpha_dec);
    assert(vars_view(vars@) =~= head_vars_spec(*scheme));
    vars
}

impl TemplateEngine {
    /// The pywal-style variables of a scheme: `{background}`, `{color0}` to
    /// `{color15}` and their `.strip`, `.rgb`, `.rgba`, `.xrgba` and channel
    /// variants.
    #[verifier::rlimit(40)]
    pub fn build_variables(scheme: &ColorScheme) -> (r: Vec<(String, String)>)
        ensures
            vars_view(r@) == scheme_vars(*scheme),
    {
        let mut vars = head_vars(scheme);
        let ghost head = vars_view(vars@);
        let mut i: usize = 0;
        while i < scheme.colors.len()
            invariant
                0 <= i <= scheme.colors.len(),
                vars_view(vars@) == head + colors_vars(scheme.colors@, i as int),
            decreases scheme.colors.len() - i,
        {
            push_color(&mut vars, i, &scheme.colors[i]);
            assert(head + colors_vars(scheme.colors@, i as int) + color_vars(i as nat, scheme.colors@[i as int])
                =~= head + colors_vars(scheme.colors@, i + 1));
            i = i + 1;
        }
        push_special(&mut vars, "background", &scheme.background);
        push_special(&mut vars, "foreground", &scheme.foreground);
        push_special(&mut vars, "cursor", &scheme.cursor);
        assert(vars_view(vars@) =~= scheme_vars(*scheme));
        vars
    }

    /// Replaces each `{name}` placeholder with the variable's value, one
    /// variable after another; unknown placeholders stay as they are.
    pub fn render(template: &str, variables: &Vec<(String, String)>) -> (r: String)
        ensures
            r@ == render_spec(template@, vars_view(variables@), variables.len() as int),
    {
        let mut result = String::from_str(template);
        let mut i: usize = 0;
        while i < variables.len()
            invariant
                0 <= i <= variables.len(),
                result@ == render_spec(template@, vars_view(variables@), i as int),
            decreases variables.len() - i,
        {
            let mut pat = String::new();
            push_char(&mut pat, '{');
            push_str(&mut pat, variables[i].0.as_str());
            push_char(&mut pat, '}');
            proof {
                let vv = vars_view(variables@);
                assert(vv[i as int] == (variables@[i as int].0@, variables@[i as int].1@));
                assert(pat@ =~= seq!['{'] + vv[i as int].0 + seq!['}']);
            }
            result = replace_str(result.as_str(), pat.as_str(), variables[i].1.as_str());
            i = i + 1;
        }
        result
    }
}

} // verus!
