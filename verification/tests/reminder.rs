use rest_reminder::decimal::{decimal_text, digit};
use rest_reminder::reminder::{pop_up, reminder_slogan, SLOGAN_COUNT};

const TAILS: [&str; 6] = [
    " seconds NON-STOOOOOOOOOOOOP! YOU MUST BE TIRED! STAND UP AND TAKE A BREAK!!!!!!!",
    " seconds OF UNSTOPPABLE GRIND! YOUR LEGS ARE CRYING FOR A BREAK! STAND UP AND SHAKE IT OFF!!!",
    " seconds STRAIGHT LIKE A NINJA! YOUR BACK IS REBELLING! POWER UP WITH A QUICK STAND-UP BREAK!!!",
    " seconds WITHOUT PAUSE! ALERT: MUSCLES ON STRIKE! RISE AND RELEASE WITH A STRETCH!!!",
    " seconds NONSTOP MODE ENGAGED! WARNING: BRAIN FOG IMMINENT! HIT THE PAUSE AND STAND TALL!!!",
    " seconds AND COUNTING! MISSION: TAKE A BREAK! DEPLOY YOUR LEGS FOR A STAND-UP MISSION!!!",
];

#[test]
fn there_are_six_slogans() {
    assert_eq!(SLOGAN_COUNT, 6);
    for choice in 0..6 {
        assert_eq!(reminder_slogan(3600, choice), Some(format!("3600{}", TAILS[choice])));
    }
    assert_eq!(reminder_slogan(3600, 6), None);
    assert_eq!(reminder_slogan(3600, usize::MAX), None);
}

#[test]
fn the_slogan_names_the_seconds() {
    assert_eq!(reminder_slogan(0, 0), Some(format!("0{}", TAILS[0])));
    assert_eq!(
        reminder_slogan(u64::MAX, 5),
        Some(format!("18446744073709551615{}", TAILS[5]))
    );
}

#[test]
fn the_reminder_is_one_of_the_slogans() {
    let mut seen = [false; 6];
    for _ in 0..400 {
        let text = pop_up(10);
        let choice = (0..6).find(|c| text == format!("10{}", TAILS[*c]));
        assert!(choice.is_some(), "{}", text);
        seen[choice.unwrap()] = true;
    }
    assert!(seen.iter().filter(|s| **s).count() > 1);
}

#[test]
fn numbers_are_written_in_decimal() {
    for n in [0u64, 1, 9, 10, 11, 99, 100, 101, 909, 1000, 65_535, 1_000_000_007, u64::MAX] {
        assert_eq!(decimal_text(n), n.to_string());
    }
    assert_eq!(decimal_text(3600), "3600");
}

#[test]
fn digits_are_the_ten_digit_characters() {
    let all: String = (0u8..10).map(digit).collect();
    assert_eq!(all, "0123456789");
}
