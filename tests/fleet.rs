use shipit::commands::{env_set_command, env_unset_command, logs_command, run_command};
use shipit::pipeline::{fleet_next, fleet_start, FleetState};
use shipit::secrets::{parse_dotenv, serialize_dotenv, unset, SecretsError};

#[test]
fn fan_out_stops_at_first_failure() {
    assert_eq!(fleet_start(0), FleetState::AllDone);
    assert_eq!(fleet_start(3), FleetState::Next(0));
    assert_eq!(fleet_next(0, true, 3), FleetState::Next(1));
    assert_eq!(fleet_next(1, false, 3), FleetState::FailedAt(1));
    assert_eq!(fleet_next(2, true, 3), FleetState::AllDone);
}

#[test]
fn secrets_commands() {
    let mut s = parse_dotenv("A=1\n");
    assert_eq!(shipit::secrets::set(&mut s, "B=2", 0), Err(SecretsError::NoRecipients));
    assert_eq!(serialize_dotenv(&s), "A=1");
    assert_eq!(shipit::secrets::set(&mut s, "B", 1), Err(SecretsError::ExpectedKeyValue));
    assert_eq!(shipit::secrets::set(&mut s, "B=2", 1), Ok("B".to_string()));
    assert_eq!(unset(&mut s, "A", 0), Err(SecretsError::NoRecipients));
    assert_eq!(unset(&mut s, "A", 1), Ok(true));
    assert_eq!(unset(&mut s, "Z", 1), Ok(false));
    assert_eq!(serialize_dotenv(&s), "B=2");
}

#[test]
fn env_and_container_commands() {
    assert_eq!(
        env_set_command("K", "v", "/a/shared/.env"),
        "grep -v '^K=' /a/shared/.env > /a/shared/.env.tmp 2>/dev/null || true && echo 'K=v' >> /a/shared/.env.tmp && mv /a/shared/.env.tmp /a/shared/.env"
    );
    assert_eq!(
        env_unset_command("K", "/e"),
        "grep -v '^K=' /e > /e.tmp 2>/dev/null && mv /e.tmp /e || true"
    );
    assert_eq!(
        logs_command("/a/current", 100, true, &Some("web".to_string())),
        "cd $(readlink -f /a/current) && docker compose logs --tail=100 -f web"
    );
    assert_eq!(logs_command("/c", 5, false, &None), "cd $(readlink -f /c) && docker compose logs --tail=5");
    assert_eq!(run_command("/c", "web", "rails db:migrate"), "cd $(readlink -f /c) && docker compose exec web rails db:migrate");
}
