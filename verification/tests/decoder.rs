use pgpt::decoder::StreamDecoder;

// A fixed fake decode function for driving the decoder by hand: each unit
// id contributes a fixed piece of text, so decoding a window is the
// concatenation of the pieces (the additive shape the equivalence law
// speaks of).
fn piece(unit: u32) -> &'static str {
    match unit {
        0 => "he",
        1 => "llo",
        2 => " ",
        3 => "wor",
        4 => "ld",
        5 => "!",
        6 => "",
        _ => "?",
    }
}

fn fake_decode(units: &[u32]) -> String {
    let mut s = String::new();
    for u in units {
        s.push_str(piece(*u));
    }
    s
}

#[test]
fn scenario_two_steps_pins_fragments() {
    // decoding [A] gives "he", decoding [A, B] gives "hell": "he" ends in an
    // alphanumeric character, so the first step already emits "he", and the
    // second step emits the suffix "ll".
    let mut d = StreamDecoder::new();
    d.append_unit(10);
    let first = d.decide("", "he");
    assert_eq!(first, Some("he".to_string()));
    d.append_unit(11);
    let second = d.decide("he", "hell");
    assert_eq!(second, Some("ll".to_string()));
}

#[test]
fn step_withholds_on_non_alphanumeric_end() {
    // "he!" ends in punctuation: the boundary is not stable, nothing is
    // emitted, and the cursors stay.
    let mut d = StreamDecoder::new();
    d.append_unit(10);
    let r = d.decide("", "he!");
    assert_eq!(r, None);
}

#[test]
fn step_withholds_when_text_does_not_grow() {
    let mut d = StreamDecoder::new();
    d.append_unit(10);
    assert_eq!(d.decide("he", "he"), None);
}

#[test]
fn remainder_releases_withheld_text() {
    assert_eq!(
        StreamDecoder::remainder("he", "hell"),
        Some("ll".to_string())
    );
    assert_eq!(StreamDecoder::remainder("", "!?"), Some("!?".to_string()));
    assert_eq!(StreamDecoder::remainder("x", "x"), None);
}

// Feed a unit sequence one at a time, decoding the decoder's windows with
// the fake decode, and collect everything emitted plus the final flush.
fn run_decoder(units: &[u32]) -> String {
    let mut d = StreamDecoder::new();
    let mut out = String::new();
    for u in units {
        let prev = if d.unit_count() == 0 {
            String::new()
        } else {
            fake_decode(d.held_window())
        };
        d.append_unit(*u);
        let text = fake_decode(d.open_window());
        if let Some(frag) = d.decide(&prev, &text) {
            out.push_str(&frag);
        }
    }
    let prev = if d.unit_count() == 0 {
        String::new()
    } else {
        fake_decode(d.held_window())
    };
    let text = fake_decode(d.open_window());
    if let Some(rest) = StreamDecoder::remainder(&prev, &text) {
        out.push_str(&rest);
    }
    out
}

#[test]
fn equivalence_on_full_sentence() {
    // Incremental emission plus flush equals the one-shot decode.
    let units = [0, 1, 2, 3, 4, 5];
    assert_eq!(run_decoder(&units), fake_decode(&units));
    assert_eq!(run_decoder(&units), "hello world!");
}

#[test]
fn equivalence_with_empty_pieces_and_held_tail() {
    // Units that decode to nothing and a punctuation tail that only the
    // flush releases.
    let units = [6, 0, 6, 5, 5];
    assert_eq!(run_decoder(&units), fake_decode(&units));
    assert_eq!(run_decoder(&units), "he!!");
}

#[test]
fn equivalence_on_empty_input() {
    let units: [u32; 0] = [];
    assert_eq!(run_decoder(&units), "");
}

#[test]
fn reset_forgets_units() {
    let mut d = StreamDecoder::new();
    d.append_unit(1);
    d.append_unit(2);
    assert_eq!(d.unit_count(), 2);
    d.reset();
    assert_eq!(d.unit_count(), 0);
    assert_eq!(d.all_units(), &[] as &[u32]);
}
