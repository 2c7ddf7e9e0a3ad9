use swimbot::commands::{link_reply, score_reply, steamid_reply};

#[test]
fn link_fresh() {
    assert_eq!(link_reply(0, 7656119), "Linked steamid: 7656119");
}

#[test]
fn link_replacing() {
    assert_eq!(link_reply(42, 7656119), "Replacing existing steamid with: 7656119");
}

#[test]
fn steamid_needs_permission_for_others() {
    let name = "someone".to_string();
    assert_eq!(
        steamid_reply(true, false, &name, 99),
        "You don't have permission to view other users steamids."
    );
}

#[test]
fn steamid_admin_may_view_others() {
    let name = "someone".to_string();
    assert_eq!(
        steamid_reply(true, true, &name, 99),
        "Steamid 99 linked to discord user someone"
    );
}

#[test]
fn steamid_unlinked() {
    let name = "me".to_string();
    assert_eq!(steamid_reply(false, false, &name, 0), "No steamid linked to discord user: me");
}

#[test]
fn steamid_linked() {
    let name = "me".to_string();
    assert_eq!(steamid_reply(false, false, &name, 31), "Steamid 31 linked to discord user me");
}

#[test]
fn score_without_link() {
    assert_eq!(
        score_reply(0, &None, &None),
        "There's no steamid linked to this discord user."
    );
}

#[test]
fn score_without_highscore() {
    assert_eq!(score_reply(77, &None, &None), "No highscore found for steamid: 77");
}

#[test]
fn score_with_placing() {
    let best = Some((4321, "gt3".to_string(), "spa".to_string()));
    assert_eq!(
        score_reply(77, &best, &Some(2)),
        "Your highscore is 4321 on spa with gt3. You are currently in 3 place."
    );
}

#[test]
fn score_with_unknown_placing() {
    let best = Some((4321, "gt3".to_string(), "spa".to_string()));
    assert_eq!(
        score_reply(77, &best, &None),
        "Your highscore is 4321 on spa with gt3. You are currently in 0 place."
    );
}
