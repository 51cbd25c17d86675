use engine::events::{accepted_challenge, apply_stream_event, ChallengeEvent, ChallengeUser, StreamEvent};

#[test]
fn started_games_are_appended_and_finished_ones_removed() {
    let mut games: Vec<String> = Vec::new();
    apply_stream_event(&mut games, StreamEvent::GameStart { game_id: "a".to_string() });
    apply_stream_event(&mut games, StreamEvent::GameStart { game_id: "b".to_string() });
    assert_eq!(games, vec!["a".to_string(), "b".to_string()]);
    apply_stream_event(&mut games, StreamEvent::GameFinish { game_id: "a".to_string() });
    assert_eq!(games, vec!["b".to_string()]);
    apply_stream_event(&mut games, StreamEvent::GameFinish { game_id: "zz".to_string() });
    assert_eq!(games, vec!["b".to_string()]);
}

#[test]
fn own_challenges_are_not_accepted() {
    let me = "bot".to_string();
    let mine = ChallengeEvent::Challenge {
        id: "c1".to_string(),
        challenger: ChallengeUser { id: "bot".to_string() },
    };
    let theirs = ChallengeEvent::Challenge {
        id: "c2".to_string(),
        challenger: ChallengeUser { id: "human".to_string() },
    };
    let canceled = ChallengeEvent::ChallengeCanceled { id: "c3".to_string() };
    assert_eq!(accepted_challenge(&mine, &me), None);
    assert_eq!(accepted_challenge(&theirs, &me), Some(&"c2".to_string()));
    assert_eq!(accepted_challenge(&canceled, &me), None);
}
