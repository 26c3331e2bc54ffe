use scouty::errors::ScoutyError;
use scouty::hooks::Hook;
use scouty::identity::{parse_identity_data, Identity, IdentityData};
use scouty::matrix::{define_private_room_alias_name, Room};

#[test]
fn room_alias_name_is_the_encoded_configuration() {
    assert_eq!(define_private_room_alias_name("a", "b", "c", "d"), "YS9iL2MvZA==".to_string());
    assert_eq!(
        define_private_room_alias_name("scouty", "kusama", "@user:matrix.org", "@bot:matrix.org"),
        "c2NvdXR5L2t1c2FtYS9AdXNlcjptYXRyaXgub3JnL0Bib3Q6bWF0cml4Lm9yZw==".to_string()
    );
}

#[test]
fn room_alias_name_matches_the_encoder() {
    let alias = define_private_room_alias_name("scouty", "westend", "@u:m.org", "@b:m.org");
    assert_eq!(alias, base64::encode("scouty/westend/@u:m.org/@b:m.org"));
}

#[test]
fn private_room_is_addressed_on_the_bot_server() {
    let room = Room::new_private("a", "b", "c", "@bot:matrix.org");
    assert_eq!(room.room_alias_name, base64::encode("a/b/c/@bot:matrix.org"));
    assert_eq!(room.room_alias, format!("#{}:matrix.org", room.room_alias_name));
    assert_eq!(room.room_id, "".to_string());
    assert!(room.servers.is_empty());
}

#[test]
fn bot_user_without_a_server_keeps_the_whole_name() {
    let room = Room::new_private("a", "b", "c", "bot");
    assert_eq!(room.room_alias, format!("#{}:bot", room.room_alias_name));
}

#[test]
fn identity_rendering() {
    assert_eq!(Identity::with_name("Validator".to_string()).full_name(), "Validator".to_string());
    assert_eq!(
        Identity::with_name_and_sub("Validator".to_string(), "01".to_string()).full_name(),
        "Validator/01".to_string()
    );
}

#[test]
fn absent_hook_script_is_not_an_error() {
    let hook = Hook::from_run("New session", "/missing.sh", false, false, vec![1, 2], "ignored")
        .expect("an absent script is recorded, not an error");
    assert_eq!(hook.name, "New session".to_string());
    assert_eq!(hook.filename, "/missing.sh".to_string());
    assert!(!hook.filename_exists);
    assert!(hook.stdout.is_empty());
}

#[test]
fn successful_hook_run_keeps_its_output() {
    let hook = Hook::from_run("New era", "/hook.sh", true, true, b"! line\n".to_vec(), "")
        .expect("a successful run is not an error");
    assert!(hook.filename_exists);
    assert_eq!(hook.stdout, b"! line\n".to_vec());
}

#[test]
fn failed_hook_run_reports_its_stderr() {
    let result = Hook::from_run("New era", "/hook.sh", true, false, vec![], "boom");
    match result {
        Err(ScoutyError::Other(message)) => {
            assert_eq!(
                message,
                "Hook script - New era - filename (/hook.sh) executed with error: boom".to_string()
            );
        }
        _ => panic!("a failed run must be an error naming the script"),
    }
}

#[test]
fn addresses_are_shortened_for_display() {
    assert_eq!(
        scouty::identity::shortened_address("5GrwvaEF5zXb26Fz9rcQpDWS57CtERHpNehXCPcNoHGKutQY"),
        "5Grwva...GKutQY".to_string()
    );
    assert_eq!(scouty::identity::shortened_address("abcdef"), "abcdef...abcdef".to_string());
}

#[test]
fn identity_data_parsing() {
    assert_eq!(
        parse_identity_data(IdentityData::Raw(b"Validator".to_vec())),
        "Validator".to_string()
    );
    assert_eq!(parse_identity_data(IdentityData::Hashed), "???".to_string());
    assert_eq!(parse_identity_data(IdentityData::Unset), "???".to_string());
}

#[test]
fn minimal_validator_starts_inactive() {
    let validator =
        scouty::validator::Validator::new(scouty::account::AccountId::new(vec![7; 32]));
    assert!(!validator.is_active);
    assert!(!validator.is_queued);
}

#[test]
fn error_messages() {
    assert_eq!(
        ScoutyError::Other("boom".to_string()).message(),
        "Other error: boom".to_string()
    );
    assert_eq!(
        ScoutyError::MatrixError("no room".to_string()).message(),
        "Matrix error: no room".to_string()
    );
    assert_eq!(
        ScoutyError::SubscriptionFinished.message(),
        "Subscription finished".to_string()
    );
}
