use ssne_bot::structs::{DcUsername, McUsername};

#[test]
fn mc_user_from_name() {
    let u = McUsername::new_from_name("Notch");
    assert_eq!(u.name, "Notch");
    assert_eq!(u.uuid, "TEMPORARY-UUID");
}

#[test]
fn dc_user_from_ping() {
    let u = DcUsername::new_from_pingid("<@123>");
    assert_eq!(u.pingid, "<@123>");
}

#[test]
fn try_from_ping_accepts_mentions_only() {
    assert_eq!(DcUsername::try_from_pingid("<@123>").map(|u| u.pingid), Some("<@123>".to_string()));
    assert_eq!(DcUsername::try_from_pingid("<@>").map(|u| u.pingid), Some("<@>".to_string()));
    assert!(DcUsername::try_from_pingid("<@123").is_none());
    assert!(DcUsername::try_from_pingid("123>").is_none());
    assert!(DcUsername::try_from_pingid("<@").is_none());
    assert!(DcUsername::try_from_pingid("").is_none());
}

#[test]
fn raw_id_of_mention() {
    assert_eq!(DcUsername::new_from_pingid("<@123>").raw_id(), Some(123));
    assert_eq!(DcUsername::new_from_pingid("<@!123>").raw_id(), None);
    assert_eq!(DcUsername::new_from_pingid("<@0>").raw_id(), None);
    assert_eq!(DcUsername::new_from_pingid("<@>").raw_id(), None);
    assert_eq!(DcUsername::new_from_pingid("123").raw_id(), None);
}
