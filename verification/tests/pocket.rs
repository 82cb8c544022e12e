//! Prompts, voices and the engine handle.

use buzz::voice::pocket::{
    capitalize, clean, count_words, load_text_to_speech, load_voice_style, prepare_pocket_prompt,
    report, say, terminate, EngineReply, PocketTts, PreparedPrompt, VoiceStyle, DEFAULT_VOICE,
    SAMPLE_RATE, VOICE_FILE_EXT,
};

// ── prepare_pocket_prompt ────────────────────────────────────────────────────

#[test]
fn prepare_prompt_returns_none_for_empty_input() {
    assert!(prepare_pocket_prompt("").is_none());
    assert!(prepare_pocket_prompt("   ").is_none());
    assert!(prepare_pocket_prompt("\n\t  ").is_none());
}

#[test]
fn prepare_prompt_capitalizes_one_word_without_january_padding() {
    let out = prepare_pocket_prompt("yep").expect("non-empty");
    assert_eq!(out.text, "Yep.");
    assert_eq!(out.frames_after_eos, 5);
}

#[test]
fn prepare_prompt_preserves_existing_punctuation() {
    let out = prepare_pocket_prompt("yes!").expect("non-empty");
    assert_eq!(out.text, "Yes!");
    let out = prepare_pocket_prompt("really?").expect("non-empty");
    assert_eq!(out.text, "Really?");
}

#[test]
fn prepare_prompt_threshold_is_inclusive_at_four_words() {
    // Only the post-EOS heuristic changes at the four-word boundary.
    let four = prepare_pocket_prompt("one two three four").expect("non-empty");
    assert_eq!(four.text, "One two three four.");
    assert_eq!(four.frames_after_eos, 5);

    let five = prepare_pocket_prompt("one two three four five").expect("non-empty");
    assert_eq!(five.text, "One two three four five.");
    assert_eq!(five.frames_after_eos, 3);
}

#[test]
fn prepare_prompt_does_not_pad_long_text() {
    let long = "This is a longer sentence that the model should handle just fine.";
    let out = prepare_pocket_prompt(long).expect("non-empty");
    assert!(!out.text.starts_with(' '));
    assert_eq!(out.frames_after_eos, 3);
    assert!(out.text.ends_with('.'));
}

#[test]
fn prepare_prompt_collapses_whitespace() {
    let out = prepare_pocket_prompt("Hello    world\n\nfriend").expect("non-empty");
    assert_eq!(out.text, "Hello world friend.");
}

#[test]
fn prepare_prompt_does_not_double_capitalize_already_uppercase() {
    let out = prepare_pocket_prompt("HELLO there").expect("non-empty");
    assert_eq!(out.text, "HELLO there.");
}

#[test]
fn prepare_prompt_handles_non_ascii_first_letter() {
    // Cyrillic lowercase 'д' → uppercase 'Д'. Must not panic / produce
    // mojibake.
    let out = prepare_pocket_prompt("дa").expect("non-empty");
    assert!(out.text.contains("Дa."));
}

#[test]
fn prepare_prompt_does_not_add_an_onset_prefix() {
    let out = prepare_pocket_prompt("I'm happy.").expect("non-empty");
    assert_eq!(out.text, "I'm happy.");
}

// ── Characters ───────────────────────────────────────────────────────────────

#[test]
fn white_space_is_unicode_white_space() {
    let mut white: Vec<u32> = Vec::new();
    for code in 0..=0x10ffff_u32 {
        if let Some(c) = char::from_u32(code) {
            let text: String = ['a', c, 'a'].iter().collect();
            if count_words(&text) == 2 {
                white.push(code);
            }
        }
    }
    let mut expected: Vec<u32> = (0x9..=0xd).collect();
    expected.extend([0x20, 0x85, 0xa0, 0x1680]);
    expected.extend(0x2000..=0x200a);
    expected.extend([0x2028, 0x2029, 0x202f, 0x205f, 0x3000]);
    assert_eq!(white, expected);
}

#[test]
fn a_first_letter_with_a_long_mapping_is_spelled_out() {
    let out = prepare_pocket_prompt("ßtraße").expect("non-empty");
    assert_eq!(out.text, "SStraße.");
    let out = prepare_pocket_prompt("ŉ").expect("non-empty");
    assert_eq!(out.text, "ʼN.");
}

#[test]
fn only_letters_and_numbers_get_a_full_stop() {
    let text = |input: &str| prepare_pocket_prompt(input).expect("non-empty").text;
    assert_eq!(text("chapter 7"), "Chapter 7.");
    assert_eq!(text("wait,"), "Wait,");
    assert_eq!(text("(aside)"), "(aside)");
    assert_eq!(text("日本"), "日本.");
    assert_eq!(text("…"), "…");
}

#[test]
fn the_parts_of_a_prompt_take_any_letter() {
    assert_eq!(capitalize("éa".to_string(), true, "É"), "Éa");
    assert_eq!(capitalize("éa".to_string(), false, "É"), "éa");
    assert_eq!(capitalize("x".to_string(), true, "YZ"), "YZ");
    assert_eq!(capitalize(String::new(), true, "A"), "");
    assert_eq!(terminate("end".to_string(), true), "end.");
    assert_eq!(terminate("end!".to_string(), false), "end!");
    assert_eq!(terminate(String::new(), true), ".");
    let prompt = say("a b c d".to_string());
    assert_eq!(prompt.frames_after_eos, 5);
    assert_eq!(prompt.clone(), prompt);
    let prompt = say("a b c d e".to_string());
    assert_eq!(prompt.frames_after_eos, 3);
    assert_eq!(say(String::new()).frames_after_eos, 5);
}

// ── Cleaning ─────────────────────────────────────────────────────────────────

#[test]
fn cleaning_trims_and_collapses() {
    assert_eq!(clean(""), "");
    assert_eq!(clean(" \u{3000}\u{85}\t"), "");
    assert_eq!(clean("  a\u{a0}\u{2003}b \n c  "), "a b c");
    assert_eq!(count_words("  a\u{a0}\u{2003}b \n c  "), 3);
    assert_eq!(count_words(""), 0);
}

#[test]
fn cleaning_is_idempotent_and_keeps_the_words() {
    let messy = "\tone  two\u{2009}three\r\nfour ";
    let once = clean(messy);
    assert_eq!(once, "one two three four");
    assert_eq!(clean(&once), once);
    let before: Vec<&str> = messy.split_whitespace().collect();
    let after: Vec<&str> = once.split_whitespace().collect();
    assert_eq!(before, after);
    assert_eq!(count_words(&once), count_words(messy));
}

#[test]
fn cleaning_loses_no_ink() {
    let messy = " a, b\t\u{1f600} c\u{200b}d ";
    let ink = |text: &str| -> String { text.chars().filter(|c| !c.is_whitespace()).collect() };
    assert_eq!(ink(&clean(messy)), ink(messy));
}

#[test]
fn a_prompt_starts_with_its_first_word() {
    let out = prepare_pocket_prompt(" \n  Hello").expect("non-empty");
    assert_eq!(out.text, "Hello.");
    assert!(!out.text.starts_with(char::is_whitespace));
}

#[test]
fn preparing_a_prepared_text_changes_nothing() {
    for input in ["yep", " one  two three\nfour five", "ßtraße", "ŉ", "ªb", "HELLO!", "7", "…"] {
        let once = prepare_pocket_prompt(input).expect("non-empty");
        let twice = prepare_pocket_prompt(&once.text).expect("non-empty");
        assert_eq!(once, twice);
    }
}

#[test]
fn ascii_prompts_follow_the_ascii_table() {
    for code in 0..128_u8 {
        let c = char::from(code);
        let prompt = prepare_pocket_prompt(&c.to_string());
        if c.is_ascii_whitespace() || c == '\u{b}' {
            assert!(prompt.is_none());
            continue;
        }
        let mut expected = c.to_ascii_uppercase().to_string();
        if c.is_ascii_alphanumeric() {
            expected.push('.');
        }
        let prompt = prompt.expect("non-empty");
        assert_eq!(prompt.text, expected);
        assert_eq!(prepare_pocket_prompt(&prompt.text), Some(prompt));
    }
}

#[test]
fn frames_go_by_the_words_of_the_input() {
    for (input, frames) in [
        (" a\tb  c\nd ", 5),
        (" a\tb  c\nd e", 3),
        ("a - b - c", 3),
        ("one, two.", 5),
    ] {
        let prompt = prepare_pocket_prompt(input).expect("non-empty");
        assert_eq!(prompt.frames_after_eos, frames);
        assert_eq!(count_words(&prompt.text), count_words(input));
    }
}

#[test]
fn only_the_words_of_a_text_matter() {
    assert_eq!(
        prepare_pocket_prompt("to  be\tor not"),
        prepare_pocket_prompt(" to be or\u{3000}not\n")
    );
}

// ── Voices ───────────────────────────────────────────────────────────────────

#[test]
fn a_voice_is_what_its_file_holds() {
    let wave = Some((vec![0.5_f32, -0.25], 32_000));
    let style = load_voice_style(Some("voice.wav"), "voice.wav", wave).expect("a voice");
    assert_eq!(style.samples(), &vec![0.5_f32, -0.25]);
    assert_eq!(style.sample_rate(), 32_000);
    let copy = style.clone();
    assert_eq!((copy.samples(), copy.sample_rate()), (style.samples(), 32_000));
}

#[test]
fn a_voice_needs_a_readable_file_with_samples() {
    let error = |path: Option<&str>, wave: Option<(Vec<f32>, i32)>| {
        load_voice_style(path, "/voices/v.wav", wave).err().expect("an error")
    };
    assert_eq!(
        error(None, Some((vec![1.0], 1))),
        "voice path is not valid UTF-8: /voices/v.wav"
    );
    assert_eq!(error(Some("v"), None), "could not read voice WAV at /voices/v.wav");
    assert_eq!(
        error(Some("v"), Some((Vec::new(), 24_000))),
        "voice WAV is empty: /voices/v.wav"
    );
}

// ── The engine handle ────────────────────────────────────────────────────────

fn engine() -> PocketTts<String> {
    match load_text_to_speech("/models/pocket", |dir: &str| Ok(format!("engine in {dir}"))) {
        Ok(tts) => tts,
        Err(error) => panic!("{error}"),
    }
}

fn voice() -> VoiceStyle<f32> {
    load_voice_style(Some("v.wav"), "v.wav", Some((vec![0.5_f32], 24_000))).expect("a voice")
}

#[test]
fn loading_reports_what_the_engine_says() {
    let failed = load_text_to_speech("/nowhere", |dir: &str| -> Result<u8, String> {
        Err(format!("no model in {dir}"))
    });
    assert_eq!(failed.err().expect("an error"), "no model in /nowhere");
}

#[test]
fn splitting_hands_the_engine_the_prepared_prompt() {
    let chunks = engine().split_text_into_chunks(
        "  hello   there ",
        |engine: &String, prompt: &PreparedPrompt| {
            EngineReply::Answer(Ok(vec![engine.clone(), prompt.text.clone()]))
        },
    );
    assert_eq!(
        chunks,
        Ok(vec![
            "engine in /models/pocket".to_string(),
            "Hello there.".to_string()
        ])
    );
}

#[test]
fn nothing_to_say_never_reaches_the_engine() {
    let tts = engine();
    let chunks = tts.split_text_into_chunks(" \t", |_: &String, _: &PreparedPrompt| {
        panic!("the engine is not called")
    });
    assert_eq!(chunks, Ok(Vec::new()));
    let samples = tts.synth_chunk(
        "",
        "en",
        &voice(),
        1,
        |_: &String, _: &PreparedPrompt, _: &VoiceStyle<f32>| panic!("the engine is not called"),
    );
    assert_eq!(samples, Ok(Vec::new()));
}

#[test]
fn synthesis_hands_over_prompt_and_voice() {
    let samples = engine().synth_chunk(
        "go on",
        "en",
        &voice(),
        1,
        |_: &String, prompt: &PreparedPrompt, style: &VoiceStyle<f32>| {
            assert_eq!(prompt.text, "Go on.");
            assert_eq!(prompt.frames_after_eos, 5);
            EngineReply::Answer(Ok(style.samples().clone()))
        },
    );
    assert_eq!(samples, Ok(vec![0.5_f32]));
}

#[test]
fn engine_failures_come_through() {
    let poisoned: Result<Vec<String>, String> = report(EngineReply::Poisoned);
    assert_eq!(poisoned, Err("Pocket TTS engine lock poisoned".to_string()));
    let failed = engine().split_text_into_chunks("hi", |_: &String, _: &PreparedPrompt| {
        EngineReply::Answer(Err("tokenizer failed".to_string()))
    });
    assert_eq!(failed, Err("tokenizer failed".to_string()));
    let stuck = engine().synth_chunk(
        "hi",
        "en",
        &voice(),
        1,
        |_: &String, _: &PreparedPrompt, _: &VoiceStyle<f32>| EngineReply::Poisoned,
    );
    assert_eq!(stuck, Err("Pocket TTS engine lock poisoned".to_string()));
}

#[test]
fn the_engine_contract_is_fixed() {
    assert_eq!(SAMPLE_RATE, 24_000);
    assert_eq!(DEFAULT_VOICE, "reference_sample");
    assert_eq!(VOICE_FILE_EXT, "wav");
}
