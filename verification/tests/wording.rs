use chat_queue::wording::{join, welcome_text, Phrase};

#[test]
fn phrases_read_as_written() {
    assert_eq!(Phrase::StartCommand.text(), "/start");
    assert_eq!(Phrase::TurnLabel.text(), "Моя очередь");
    assert_eq!(Phrase::Greeting.text(), "Привет!");
    assert_eq!(Phrase::Prompt.text(), "Уже подошла?");
    assert_eq!(Phrase::ConfirmLabel.text(), "Да");
    assert_eq!(Phrase::ConfirmTag.text(), "apply_buff");
    assert_eq!(Phrase::CancelLabel.text(), "Нет");
    assert_eq!(Phrase::CancelTag.text(), "delete_request");
    assert_eq!(Phrase::Farewell.text(), "Пока!");
    assert_eq!(Phrase::Acknowledgement.text(), "Удачи!");
    assert_eq!(Phrase::Farewell.as_str(), "Пока!");
}

#[test]
fn equals_tells_a_phrase_from_other_text() {
    assert!(Phrase::StartCommand.equals(&String::from("/start")));
    assert!(!Phrase::StartCommand.equals(&String::from("/start ")));
    assert!(!Phrase::StartCommand.equals(&String::from("/START")));
    assert!(!Phrase::StartCommand.equals(&String::new()));
    assert!(Phrase::TurnLabel.equals(&String::from("Моя очередь")));
    assert!(!Phrase::TurnLabel.equals(&String::from("моя очередь")));
}

#[test]
fn join_puts_the_separator_between_neighbours() {
    assert_eq!(join(&Vec::new(), ", "), "");
    assert_eq!(join(&vec![String::from("Ann")], ", "), "Ann");
    assert_eq!(join(&vec![String::from("Ann"), String::from("Bob")], ", "), "Ann, Bob");
    assert_eq!(
        join(&vec![String::from("a"), String::new(), String::from("c")], "-"),
        "a--c"
    );
}

#[test]
fn welcome_names_everyone() {
    assert_eq!(
        welcome_text(&vec![String::from("Ann"), String::from("Bob")]),
        "Приветствую в новой группе, Ann, Bob!"
    );
    assert_eq!(welcome_text(&vec![String::from("Ann")]), "Приветствую в новой группе, Ann!");
    assert_eq!(welcome_text(&Vec::new()), "Приветствую в новой группе, !");
}
