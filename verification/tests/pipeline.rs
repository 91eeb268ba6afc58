use tdk::pipeline::{decode_delivery, tool_names, Pipeline};
use trace_stream::render::RenderOptions;

fn opts() -> RenderOptions {
    RenderOptions {
        use_color: true,
        format_thinking: true,
        format_markdown: true,
    }
}

/// One character of rendered output with the SGR state it was drawn in.
#[derive(Debug, Clone, PartialEq)]
struct Styled {
    ch: char,
    bold: bool,
    italic: bool,
    fg: Option<String>,
}

fn apply_sgr(params: &str, bold: &mut bool, italic: &mut bool, fg: &mut Option<String>) {
    let parts: Vec<&str> = params.split(';').collect();
    let mut i = 0;
    while i < parts.len() {
        match parts[i] {
            "" | "0" => {
                *bold = false;
                *italic = false;
                *fg = None;
            }
            "1" => *bold = true,
            "22" => *bold = false,
            "3" => *italic = true,
            "23" => *italic = false,
            "39" => *fg = None,
            "38" => {
                let n = if parts.get(i + 1) == Some(&"2") { 5 } else { 3 };
                let end = (i + n).min(parts.len());
                *fg = Some(parts[i..end].join(";"));
                i = end;
                continue;
            }
            p => {
                if let Ok(code) = p.parse::<u32>() {
                    if (30..=37).contains(&code) || (90..=97).contains(&code) {
                        *fg = Some(p.to_string());
                    }
                }
            }
        }
        i += 1;
    }
}

/// Reads rendered ANSI back as the styled characters left on screen, line
/// by line: escape sequences set the style, a carriage return goes back to
/// the start of the line, and an erase-in-line clears what follows.
fn styled(ansi: &[u8]) -> Vec<Styled> {
    let text = String::from_utf8_lossy(ansi);
    let mut lines: Vec<Vec<Styled>> = Vec::new();
    let mut line: Vec<Styled> = Vec::new();
    let mut col = 0usize;
    let (mut bold, mut italic, mut fg) = (false, false, None);
    let mut it = text.chars().peekable();
    while let Some(c) = it.next() {
        match c {
            '\x1b' => {
                match it.peek() {
                    Some('[') => {
                        it.next();
                        let mut params = String::new();
                        let mut last = ' ';
                        while let Some(d) = it.next() {
                            if ('\x40'..='\x7e').contains(&d) {
                                last = d;
                                break;
                            }
                            params.push(d);
                        }
                        if last == 'm' {
                            apply_sgr(&params, &mut bold, &mut italic, &mut fg);
                        } else if last == 'K' && (params.is_empty() || params == "0") {
                            line.truncate(col);
                        }
                    }
                    Some(']') => {
                        while let Some(d) = it.next() {
                            if d == '\x07' {
                                break;
                            }
                            if d == '\x1b' {
                                it.next();
                                break;
                            }
                        }
                    }
                    _ => {
                        it.next();
                    }
                }
            }
            '\r' => col = 0,
            '\n' => {
                lines.push(std::mem::take(&mut line));
                col = 0;
            }
            _ => {
                let cell = Styled {
                    ch: c,
                    bold,
                    italic,
                    fg: fg.clone(),
                };
                if col < line.len() {
                    line[col] = cell;
                } else {
                    line.push(cell);
                }
                col += 1;
            }
        }
    }
    lines.push(line);
    let mut out = Vec::new();
    for (i, l) in lines.into_iter().enumerate() {
        if i > 0 {
            out.push(Styled {
                ch: '\n',
                bold: false,
                italic: false,
                fg: None,
            });
        }
        out.extend(l);
    }
    out
}

fn plain_text(ansi: &[u8]) -> String {
    styled(ansi).iter().map(|c| c.ch).collect()
}

/// Feeds each chunk in turn and gathers all the ANSI the pipeline produced.
fn render(chunks: &[&[u8]], finish: bool) -> Vec<u8> {
    let mut p = Pipeline::new(opts());
    let mut ansi = Vec::new();
    for chunk in chunks {
        ansi.extend(p.feed(chunk));
    }
    if finish {
        ansi.extend(p.finish());
    }
    ansi
}

const REAL_DSML_READ: &str = "<｜DSML｜tool_calls>\n\
    <｜DSML｜invoke name=\"read\">\n\
    <｜DSML｜parameter name=\"path\" string=\"true\">src/main.rs</｜DSML｜parameter>\n\
    </｜DSML｜invoke>\n\
    </｜DSML｜tool_calls>\n";

const REAL_DSML41_READ: &str = "<\u{ff5c}DSML\u{ff5c} calls>\n\
    <\u{ff5c}DSML\u{ff5c} invoke name=\"read\">\n\
    <\u{ff5c}DSML\u{ff5c} parameter name=\"path\" string=\"true\">src/main.rs</\u{ff5c}DSML\u{ff5c} parameter>\n\
    </\u{ff5c}DSML\u{ff5c} invoke>\n\
    </\u{ff5c}DSML\u{ff5c} calls>\n";

const REAL_QWEN_READ: &str = "<tool_call>\n\
    <function=read>\n\
    <parameter=path>\n\
    src/main.rs\n\
    </parameter>\n\
    </function>\n\
    </tool_call>";

#[test]
fn plain_text_reaches_the_view() {
    let txt = plain_text(&render(&[b"hello world\n"], false));
    assert!(txt.contains("hello world"));
}

#[test]
fn thinking_text_is_styled_differently_from_visible_text() {
    let cells = styled(&render(&[b"<think>pondering</think>\nanswer\n"], false));
    let txt: String = cells.iter().map(|c| c.ch).collect();
    assert!(txt.contains("pondering"));
    assert!(txt.contains("answer"));
    let p = txt.find("pondering").unwrap();
    let a = txt.find("answer").unwrap();
    let (pc, ac) = (&cells[txt[..p].chars().count()], &cells[txt[..a].chars().count()]);
    assert!(pc.italic != ac.italic || pc.fg != ac.fg || pc.bold != ac.bold);
}

#[test]
fn a_qwen_tool_call_becomes_a_banner_not_raw_markup() {
    let txt = plain_text(&render(&[REAL_QWEN_READ.as_bytes()], true));
    assert!(
        !txt.contains("<function=") && !txt.contains("<parameter="),
        "raw Qwen markup must never reach the screen: {txt:?}"
    );
    assert!(txt.contains("read"), "banner should name the tool: {txt:?}");
    assert!(
        txt.contains("src/main.rs"),
        "banner should name the path: {txt:?}"
    );
}

#[test]
fn a_qwen_call_banners_before_the_stream_ends() {
    let txt = plain_text(&render(&[REAL_QWEN_READ.as_bytes()], false));
    assert!(
        txt.contains("read"),
        "the banner must not wait for finish: {txt:?}"
    );
}

#[test]
fn dsml_and_qwen_render_in_one_session() {
    let txt = plain_text(&render(
        &[REAL_DSML_READ.as_bytes(), b"between\n", REAL_QWEN_READ.as_bytes()],
        true,
    ));
    assert!(!txt.contains("DSML"), "raw DSML reached the screen: {txt:?}");
    assert!(
        !txt.contains("<function="),
        "raw Qwen markup reached the screen: {txt:?}"
    );
    assert_eq!(
        txt.matches("src/main.rs").count(),
        2,
        "both stanzas should render a banner: {txt:?}"
    );
}

#[test]
fn a_v41_dsml_tool_call_becomes_a_banner_not_raw_markup() {
    let txt = plain_text(&render(&[REAL_DSML41_READ.as_bytes()], false));
    assert!(
        !txt.contains("DSML"),
        "raw DSML must never reach the screen: {txt:?}"
    );
    assert!(txt.contains("read"), "banner should name the tool: {txt:?}");
    assert!(
        txt.contains("src/main.rs"),
        "banner should name the path: {txt:?}"
    );
}

#[test]
fn both_dsml_dialects_render_in_one_session() {
    let txt = plain_text(&render(
        &[REAL_DSML41_READ.as_bytes(), b"between\n", REAL_DSML_READ.as_bytes()],
        true,
    ));
    assert!(!txt.contains("DSML"), "raw DSML reached the screen: {txt:?}");
    assert_eq!(
        txt.matches("src/main.rs").count(),
        2,
        "both stanzas should render a banner: {txt:?}"
    );
}

#[test]
fn a_dsml_tool_call_becomes_a_banner_not_raw_markup() {
    let txt = plain_text(&render(&[REAL_DSML_READ.as_bytes()], false));
    assert!(
        !txt.contains("DSML"),
        "raw DSML must never reach the screen: {txt:?}"
    );
    assert!(
        txt.contains("src/main.rs"),
        "banner should name the path: {txt:?}"
    );
}

#[test]
fn invented_pseudo_tool_markup_is_rejected_not_dispatched() {
    let txt = plain_text(&render(
        &[b"<read>\n<path>src/main.rs</path>\n</read>\n"],
        false,
    ));
    assert!(
        txt.contains("is not a tool call"),
        "invented markup should be rejected with an explanatory banner: {txt:?}"
    );
    assert!(
        !txt.contains("🛠"),
        "a rejected pseudo-call must not also show a dispatch banner: {txt:?}"
    );
}

#[test]
fn a_fenced_code_block_is_colored() {
    let cells = styled(&render(&[b"```rust\nfn main() {}\n```\n"], false));
    assert!(
        cells.iter().any(|c| c.fg.is_some()),
        "a highlighted code block must not be uniformly default-colored"
    );
}

#[test]
fn code_keywords_render_bold_and_comments_italic() {
    let cells = styled(&render(&[b"```rust\nfn main() {} // note\n```\n"], true));
    let f = cells
        .iter()
        .find(|c| c.ch == 'f')
        .expect("keyword letter present");
    assert!(f.bold, "keyword must be bold");
    let note = cells.iter().find(|c| c.ch == 'n' && c.italic);
    assert!(note.is_some(), "comment must be italic");
}

#[test]
fn a_dsml_error_does_not_kill_the_window_for_the_rest_of_the_session() {
    let text = plain_text(&render(
        &[
            "junk \u{ff5c}DSML\u{ff5c} junk".as_bytes(),
            b"Here is the corrected answer.",
        ],
        true,
    ));
    assert!(
        text.contains("invalid tool call"),
        "the error must still be reported: {text:?}"
    );
    assert!(
        text.contains("Here is the corrected answer."),
        "output after the error must still render: {text:?}"
    );
}

#[test]
fn split_delivery_matches_whole_delivery() {
    let input: &[u8] = b"# Title\n\nsome **bold** text\n";
    let whole = styled(&render(&[input], true));
    let chunks: Vec<&[u8]> = input.chunks(1).collect();
    let drip = styled(&render(&chunks, true));
    assert_eq!(drip, whole);
}

#[test]
fn a_character_split_across_deliveries_is_held_until_complete() {
    let mut p = Pipeline::new(opts());
    // The first byte of 'é' alone completes nothing: nothing is rendered.
    assert!(p.feed(&[0xC3]).is_empty());
    let rest = p.feed(&[0xA9, b'\n']);
    assert!(plain_text(&rest).contains('é'));
}

#[test]
fn multi_byte_text_delivered_byte_by_byte_matches_whole_delivery() {
    let input = REAL_DSML_READ.as_bytes();
    let whole = plain_text(&render(&[input], true));
    let chunks: Vec<&[u8]> = input.chunks(1).collect();
    let drip = plain_text(&render(&chunks, true));
    assert_eq!(drip, whole);
    assert!(whole.contains("src/main.rs"));
}

#[test]
fn an_invalid_byte_does_not_hold_back_later_text() {
    let mut p = Pipeline::new(opts());
    let first = p.feed(b"\xffoops\n");
    assert!(plain_text(&first).contains("\u{FFFD}oops"));
    let second = p.feed(b"hello world\n");
    assert!(plain_text(&second).contains("hello world"));
}

#[test]
fn a_lead_byte_followed_by_a_wrong_byte_is_not_held() {
    let mut p = Pipeline::new(opts());
    // 0xE0 0x80 can begin no character: both bytes are shown as U+FFFD.
    let ansi = p.feed(&[0xE0, 0x80, b'x', b'\n']);
    assert!(plain_text(&ansi).contains("\u{FFFD}\u{FFFD}x"));
}

#[test]
fn an_unfinished_three_byte_character_is_held_until_complete() {
    let mut p = Pipeline::new(opts());
    // The first two bytes of '€' complete nothing.
    assert!(p.feed(&[0xE2, 0x82]).is_empty());
    let rest = p.feed(&[0xAC, b'\n']);
    assert!(plain_text(&rest).contains('€'));
    assert!(!plain_text(&rest).contains('\u{FFFD}'));
}

#[test]
fn a_cut_character_followed_by_ascii_becomes_replacements() {
    let mut p = Pipeline::new(opts());
    assert!(p.feed(&[0xE2, 0x82]).is_empty());
    let ansi = p.feed(b"z\n");
    let text = plain_text(&ansi);
    assert!(text.contains("\u{FFFD}\u{FFFD}z"));
}

#[test]
fn the_tool_table_lists_the_dispatchers_names_in_order() {
    let names = tool_names();
    assert_eq!(names.len(), 25);
    assert_eq!(names[0], "EnterWorktree");
    assert_eq!(names[4], "read");
    assert_eq!(names[11], "bash");
    assert_eq!(names[24], "run_code");
}

#[test]
fn decoding_holds_an_unfinished_character_at_the_end() {
    let (text, held) = decode_delivery(b"", b"ab\xE2\x82");
    assert_eq!(text, "ab");
    assert_eq!(held, vec![0xE2, 0x82]);
}

#[test]
fn decoding_completes_a_held_character() {
    let (text, held) = decode_delivery(&[0xE2, 0x82], &[0xAC, b'!']);
    assert_eq!(text, "€!");
    assert!(held.is_empty());
}

#[test]
fn decoding_shows_each_invalid_byte_as_a_replacement() {
    let (text, held) = decode_delivery(b"", b"\xffx\xC0\x80y");
    assert_eq!(text, "\u{FFFD}x\u{FFFD}\u{FFFD}y");
    assert!(held.is_empty());
    let (text, held) = decode_delivery(&[0xE2, 0x82], b"z");
    assert_eq!(text, "\u{FFFD}\u{FFFD}z");
    assert!(held.is_empty());
}

#[test]
fn decoding_valid_text_passes_it_through_whole() {
    let (text, held) = decode_delivery("héllo ".as_bytes(), "wörld".as_bytes());
    assert_eq!(text, "héllo wörld");
    assert!(held.is_empty());
    let (text, held) = decode_delivery(b"", b"");
    assert_eq!(text, "");
    assert!(held.is_empty());
}
