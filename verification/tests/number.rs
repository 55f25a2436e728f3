use doris_resource_topn::number::is_number;

fn parses(text: &str) -> bool {
    text.parse::<f64>().is_ok()
}

#[test]
fn numbers() {
    for text in [
        "0", "1", "1073741824", "1.5", "1.", ".5", "0.0", "1e3", "1E3", "1e+3", "1e-3", "1.5e10",
        ".5e1", "5.e1", "+1", "-1", "+.5", "-5.", "inf", "+inf", "-inf", "INF", "Infinity",
        "-INFINITY", "nan", "NaN", "+nan", "-NAN", "007", "1e007", "1e999", "0e0",
    ] {
        assert!(is_number(text), "{}", text);
        assert!(parses(text), "{}", text);
    }
}

#[test]
fn texts_that_are_no_numbers() {
    for text in [
        "", "abc", "+", "-", ".", "e", "e5", "1e", "1e+", "1e-", ".e5", "+.", "1..2", "1.2.3",
        "1e5e5", "1e5.5", "1 ", " 1", "1,5", "1_000", "0x10", "++1", "+-1", "1+", "1e++5", "in",
        "infinit", "infinityy", "na", "nann", "5GB", "1.5f", "１", "١", "1e５", "i nf", "+", "−1",
    ] {
        assert!(!is_number(text), "{}", text);
        assert!(!parses(text), "{}", text);
    }
}

#[test]
fn syntax_agrees_with_the_parser_of_doubles() {
    let pieces = ["0", "7", "12", ".", "e", "E", "+", "-", "inf", "NaN", "infinity", "i", "n", "a", " ", "x"];
    let mut picks = vec![0usize];
    let mut checked = 0;
    while picks.len() <= 5 {
        let text: String = picks.iter().map(|&at| pieces[at]).collect();
        assert_eq!(is_number(&text), parses(&text), "{:?}", text);
        checked += 1;
        let mut at = 0;
        loop {
            if at == picks.len() {
                picks.push(0);
                break;
            }
            picks[at] += 1;
            if picks[at] < pieces.len() {
                break;
            }
            picks[at] = 0;
            at += 1;
        }
    }
    assert!(checked > 1_000_000);
}
