//! The indented speech-bubble renderer, exercised exactly as its callers
//! use it.

use clippit::clippit_art::ClippyArt;

const ART: &str = "   /\u{203E}\u{203E}\\\n   |  |\n   @  @\n   || |/\n   || ||\n   |\\_/|\n   \\___/\n     /\\\n";

fn collect_art(c: &mut ClippyArt) -> String {
    let mut out = String::new();
    while let Some(s) = c.drain() {
        out.push_str(&s);
    }
    out
}

#[test]
fn clippit_art_clippy_output() {
    {
        // Minimum output width
        let mut clippy = ClippyArt::new(0);
        let result = collect_art(&mut clippy);
        assert_eq!(result, ART.to_string() + "/\u{203E}\u{203E}\u{203E}\u{203E}  \\\n");

        clippy.finish();
        let result = collect_art(&mut clippy);
        assert_eq!(result, "\\______/\n");
    }
    {
        // Add empty string
        let mut clippy = ClippyArt::new(0);
        clippy.add_str("");
        clippy.finish();
        let result = collect_art(&mut clippy);
        assert_eq!(
            result,
            ART.to_string() + "/\u{203E}\u{203E}\u{203E}\u{203E}  \\\n\\______/\n"
        );
    }
    {
        let mut clippy = ClippyArt::new(0);
        clippy.add_str("a");
        let result = collect_art(&mut clippy);
        assert_eq!(result, ART.to_string() + "/\u{203E}\u{203E}\u{203E}\u{203E}  \\\n");

        clippy.finish();
        let result = collect_art(&mut clippy);
        assert_eq!(result, "| a    |\n\\______/\n");

        // Add string after finish()
        clippy.add_str("a");
        clippy.finish();
        let result = collect_art(&mut clippy);
        assert_eq!(result, "| a    |\n\\______/\n");
    }
    {
        // Output width = 6
        let mut clippy = ClippyArt::new(6);
        clippy.add_str("aa");
        clippy.finish();

        let result = collect_art(&mut clippy);
        assert_eq!(
            result,
            ART.to_string() + "/\u{203E}\u{203E}\u{203E}\u{203E}  \\\n| aa   |\n\\______/\n"
        );
    }
    {
        // Wrap long line
        let mut clippy = ClippyArt::new(6);
        clippy.add_str("aaaaa");
        clippy.finish();

        let result = collect_art(&mut clippy);
        assert_eq!(
            result,
            ART.to_string()
                + "/\u{203E}\u{203E}\u{203E}\u{203E}  \\\n| aaaa |\n| a    |\n\\______/\n"
        );
    }
    {
        // Append string
        let mut clippy = ClippyArt::new(6);
        clippy.add_str("a");
        let result = collect_art(&mut clippy);
        assert_eq!(result, ART.to_string() + "/\u{203E}\u{203E}\u{203E}\u{203E}  \\\n");

        clippy.add_str("a");
        clippy.finish();
        let result = collect_art(&mut clippy);
        assert_eq!(result, "| aa   |\n\\______/\n");
    }
    {
        // Newline in string
        let mut clippy = ClippyArt::new(6);
        clippy.add_str("a\n");
        let result = collect_art(&mut clippy);
        assert_eq!(result, ART.to_string() + "/\u{203E}\u{203E}\u{203E}\u{203E}  \\\n| a    |\n");

        clippy.add_str("b");
        clippy.finish();
        let result = collect_art(&mut clippy);
        assert_eq!(result, "| b    |\n\\______/\n");
    }
    {
        // Word wrapping
        let mut clippy = ClippyArt::new(7);
        clippy.add_str("a");
        clippy.add_str("\n");
        clippy.add_str("aaaaaaa\n");
        clippy.add_str("b");
        clippy.finish();
        let result = collect_art(&mut clippy);
        assert_eq!(
            result,
            ART.to_string()
                + "/\u{203E}\u{203E}\u{203E}\u{203E}  \\\n| a    |\n| aaaa |\n| aaa  |\n| b    |\n\\______/\n"
        );
    }
}

#[test]
fn art_width_zero_behaves_like_minimum_width() {
    let mut low = ClippyArt::new(0);
    let mut min = ClippyArt::new(15);
    low.add_str("hello there friend");
    min.add_str("hello there friend");
    low.finish();
    min.finish();
    assert_eq!(collect_art(&mut low), collect_art(&mut min));
}

#[test]
fn art_empty_append_after_drain_yields_empty_signal() {
    let mut clippy = ClippyArt::new(20);
    let header = clippy.drain();
    assert!(header.is_some());
    clippy.add_str("");
    assert_eq!(clippy.drain(), None);
}

#[test]
fn art_rows_have_constant_width() {
    // Every interior row of a finished bubble is as wide as every other:
    // two border glyphs, a space each side, and the padded interior.
    let mut clippy = ClippyArt::new(24);
    clippy.add_str("the quick brown fox jumps over the lazy dog\nagain");
    clippy.finish();
    let out = collect_art(&mut clippy);
    let rows: Vec<&str> = out.lines().filter(|l| l.starts_with("| ")).collect();
    assert!(rows.len() >= 3);
    for row in rows {
        assert_eq!(row.chars().count(), 24 - 7);
        assert!(row.ends_with(" |"));
    }
}
