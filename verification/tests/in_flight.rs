use fs_caching_server::in_flight::{InFlight, Role};

fn followed(role: Role<u32>) -> Option<u32> {
    match role {
        Role::Leader => None,
        Role::Follower(waiter) => Some(waiter),
    }
}

#[test]
fn the_first_leads_and_the_others_follow() {
    let mut fetches = InFlight::new();
    assert_eq!(followed(fetches.join("/c/a.gz", 1)), None);
    assert_eq!(followed(fetches.join("/c/a.gz", 2)), Some(1));
    assert_eq!(followed(fetches.join("/c/a.gz", 3)), Some(1));
}

#[test]
fn files_have_their_own_leaders() {
    let mut fetches = InFlight::new();
    assert_eq!(followed(fetches.join("/c/a.gz", 1)), None);
    assert_eq!(followed(fetches.join("/c/b.gz", 2)), None);
    assert_eq!(fetches.finish("/c/a.gz"), Some(1));
    assert_eq!(followed(fetches.join("/c/b.gz", 3)), Some(2));
}

#[test]
fn a_finished_fetch_can_be_led_again() {
    let mut fetches = InFlight::new();
    assert_eq!(fetches.finish("/c/a.gz"), None);
    assert_eq!(followed(fetches.join("/c/a.gz", 1)), None);
    assert_eq!(fetches.finish("/c/a.gz"), Some(1));
    assert_eq!(fetches.finish("/c/a.gz"), None);
    assert_eq!(followed(fetches.join("/c/a.gz", 2)), None);
}
