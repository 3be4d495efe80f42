use colored::Colorize;
use jest_companion::style::{emit, render_colored, render_plain, Segment, Tone};

fn doc(pieces: &[(&str, Tone)]) -> Vec<Segment> {
    let mut d = Vec::new();
    for (text, tone) in pieces {
        emit(&mut d, text, *tone);
    }
    d
}

#[test]
fn colored_rendering_uses_the_color_library() {
    colored::control::set_override(true);
    let texts = ["×", " subtracts", "", "a\u{1b}[0mb", "plain text"];
    for text in texts {
        let cases = [
            (Tone::Red, text.red().to_string()),
            (Tone::RedBold, text.red().bold().to_string()),
            (Tone::Green, text.green().to_string()),
            (Tone::GreenBold, text.green().bold().to_string()),
            (Tone::Yellow, text.yellow().to_string()),
            (Tone::Blue, text.blue().to_string()),
            (Tone::BrightRed, text.bright_red().to_string()),
            (Tone::Bold, text.bold().to_string()),
            (Tone::Dimmed, text.dimmed().to_string()),
            (Tone::Plain, text.to_string()),
        ];
        for (tone, expected) in cases {
            assert_eq!(render_colored(&doc(&[(text, tone)])), expected);
        }
    }
    assert_eq!(
        render_colored(&doc(&[("×", Tone::RedBold), (" a", Tone::Plain), ("(1ms)", Tone::Dimmed)])),
        "\u{1b}[1;31m×\u{1b}[0m a\u{1b}[2m(1ms)\u{1b}[0m"
    );
}

#[test]
fn plain_rendering_drops_tones() {
    let d = doc(&[("×", Tone::RedBold), (" a", Tone::Plain), ("(1ms)", Tone::Dimmed)]);
    assert_eq!(render_plain(&d), "× a(1ms)");
    assert_eq!(render_plain(&Vec::new()), "");
}
