use justone::justone::Player;
use justone::players::list_filtered_words;
use justone::players::list_words;
use justone::players::strike;
use justone::players::strike_duplicates;
use justone::rounds::judge;
use justone::rounds::next_player;

fn table(hints: &[Option<&str>]) -> Vec<Player> {
    hints
        .iter()
        .map(|hint| Player {
            name: String::new(),
            word_guess: hint.map(|w| w.to_string()),
            word_stricken: false,
        })
        .collect()
}

fn marks(users: &Vec<Player>) -> Vec<bool> {
    users.iter().map(|u| u.word_stricken).collect()
}

#[test]
fn all_copies_of_a_hint_are_stricken() {
    let mut users = table(&[Some("oak"), None, Some("OAK"), Some("leaf"), Some("oAk"), None]);
    strike_duplicates(&mut users);
    assert_eq!(marks(&users), vec![true, false, true, false, true, false]);
}

#[test]
fn filtered_words_are_distinct_and_single_words_stay() {
    let mut users = table(&[Some("oak"), Some("oak"), Some("leaf"), Some("root")]);
    strike_duplicates(&mut users);
    assert_eq!(
        list_filtered_words(&users),
        vec![None, None, Some("leaf".to_string()), Some("root".to_string())]
    );
    assert_eq!(list_words(&users)[0], Some(("oak".to_string(), true)));
}

#[test]
fn striking_duplicates_twice_changes_nothing() {
    let mut users = table(&[Some("oak"), Some("Oak"), Some("leaf")]);
    strike_duplicates(&mut users);
    let once = marks(&users);
    strike_duplicates(&mut users);
    assert_eq!(marks(&users), once);
}

#[test]
fn hints_stricken_by_hand_stay_stricken() {
    let mut users = table(&[Some("oak"), Some("leaf"), Some("root")]);
    strike(&mut users, &vec![2, 0, 2]);
    assert_eq!(marks(&users), vec![true, false, true]);
}

#[test]
fn the_last_player_is_followed_by_the_first() {
    assert_eq!(next_player(0, 3), 1);
    assert_eq!(next_player(1, 3), 2);
    assert_eq!(next_player(2, 3), 0);
}

#[test]
fn verdicts_cost_words() {
    assert_eq!(judge(3, 5, true), (4, 4));
    assert_eq!(judge(3, 5, false), (3, 3));
    assert_eq!(judge(3, 2, false), (3, 0));
    assert_eq!(judge(3, 1, false), (3, 0));
    assert_eq!(judge(3, 1, true), (4, 0));
}
