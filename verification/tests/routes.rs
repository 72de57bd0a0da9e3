use engram_dashboard_daemon::ingress::BoundIdentity;
use engram_dashboard_daemon::routes::{
    admit_credential, bearer_token, check_session_binding, cli_recipient_tokens, mail_gated_path,
    pong, send_command, AuthReject, ControlRoute, Entrance, HttpMethod, RosterBroadcastSlot,
    SendArgs, SessionHeader, ToField, CONTROL_AGENT_PATH, MCP_PATH,
};

fn expected_is_mail(route: ControlRoute) -> bool {
    match route {
        ControlRoute::Send => true,
        ControlRoute::Messages => true,
        ControlRoute::Agent => false,
    }
}

#[test]
fn every_registered_control_route_is_explicitly_classified() {
    for route in ControlRoute::all() {
        assert_eq!(route.is_mail(), expected_is_mail(route), "{route:?}({})", route.path());
        assert_eq!(ControlRoute::from_path(route.path()), Some(route), "{route:?}");
    }
    assert_eq!(ControlRoute::all().len(), 3);
    assert_eq!(ControlRoute::all().iter().filter(|r| r.is_mail()).count(), 2);
}

#[test]
fn the_mcp_route_is_outside_the_mail_gate() {
    for path in [MCP_PATH, "/mcp/", "/mcp/whatever", "/", "/health"] {
        assert!(!mail_gated_path(path), "{path}");
    }
}

#[test]
fn an_unclassified_control_path_folds_to_the_mail_gate() {
    for path in ["/control/whatever", "/control/send/extra", "/control", "/control/"] {
        assert_eq!(ControlRoute::from_path(path), None, "{path}");
        assert!(mail_gated_path(path), "{path}");
    }
    assert!(!mail_gated_path(CONTROL_AGENT_PATH));
    for route in ControlRoute::all() {
        assert_eq!(mail_gated_path(route.path()), route.is_mail(), "{route:?}");
    }
    for path in ["/controlfoo", "/control-x", "/controls/send", "/CONTROL/send"] {
        assert!(!mail_gated_path(path), "{path}");
    }
}

#[test]
fn to_field_tokenizes_per_entrance_without_double_splitting() {
    let owned = |v: &[&str]| v.iter().map(|s| s.to_string()).collect::<Vec<String>>();
    assert_eq!(ToField::One("a,b".to_string()).into_tokens(), owned(&["a,b"]));
    assert_eq!(ToField::Many(owned(&["a,b", "@all"])).into_tokens(), owned(&["a,b", "@all"]));
    assert_eq!(cli_recipient_tokens(ToField::One("a,b".to_string())), owned(&["a", "b"]));
    assert_eq!(cli_recipient_tokens(ToField::Many(owned(&["a,b", "@all"]))), owned(&["a", "b", "@all"]));
    assert_ne!(
        ToField::One("a,b".to_string()).into_tokens(),
        cli_recipient_tokens(ToField::One("a,b".to_string()))
    );
}

#[test]
fn the_cli_split_keeps_empty_pieces_for_the_trim_to_drop() {
    let v = cli_recipient_tokens(ToField::One("a,,b,".to_string()));
    assert_eq!(v, vec!["a".to_string(), String::new(), "b".to_string(), String::new()]);
    assert_eq!(cli_recipient_tokens(ToField::One(String::new())), vec![String::new()]);
}

#[test]
fn only_an_exact_bearer_header_carries_a_token() {
    assert_eq!(bearer_token(Some("Bearer abc ")), Some("abc".to_string()));
    assert_eq!(bearer_token(Some("bearer abc")), None);
    assert_eq!(bearer_token(Some("Bearerabc")), None);
    assert_eq!(bearer_token(Some("Basic abc")), None);
    assert_eq!(bearer_token(None), None);
    assert_eq!(bearer_token(Some("Bearer ")), Some(String::new()));
}

fn me() -> BoundIdentity {
    BoundIdentity { agent_id: 7, epoch: 1 }
}

#[test]
fn the_bearer_check_answers_each_failure_with_its_status() {
    let some = Some((me(), true));
    assert_eq!(admit_credential(None, "/mcp", HttpMethod::Post, SessionHeader::Absent), Err(AuthReject::Unauthorized));
    assert_eq!(
        admit_credential(Some((me(), false)), "/control/send", HttpMethod::Post, SessionHeader::Absent),
        Err(AuthReject::MailNotAllowed)
    );
    assert!(admit_credential(Some((me(), false)), "/control/agent", HttpMethod::Post, SessionHeader::Absent).is_ok());
    assert!(admit_credential(Some((me(), false)), "/mcp", HttpMethod::Post, SessionHeader::Absent).is_ok());
    assert_eq!(admit_credential(some, "/mcp", HttpMethod::Post, SessionHeader::Malformed), Err(AuthReject::BadRequest));
    assert_eq!(admit_credential(some, "/mcp", HttpMethod::Get, SessionHeader::Absent), Err(AuthReject::BadRequest));
    assert_eq!(admit_credential(some, "/mcp", HttpMethod::Delete, SessionHeader::Absent), Err(AuthReject::BadRequest));
    assert_eq!(admit_credential(some, "/mcp", HttpMethod::Post, SessionHeader::Absent), Ok((me(), None)));
    assert_eq!(
        admit_credential(some, "/mcp", HttpMethod::Get, SessionHeader::Present("s-1".to_string())),
        Ok((me(), Some("s-1".to_string())))
    );
    let other = BoundIdentity { agent_id: 8, epoch: 1 };
    assert_eq!(check_session_binding(Some(me()), me(), HttpMethod::Post), Ok(false));
    assert_eq!(check_session_binding(Some(me()), me(), HttpMethod::Delete), Ok(true));
    assert_eq!(check_session_binding(Some(other), me(), HttpMethod::Post), Err(AuthReject::Forbidden));
    assert_eq!(check_session_binding(None, me(), HttpMethod::Post), Err(AuthReject::NotFound));
}

#[test]
fn both_entrances_build_the_same_command_but_split_differently() {
    let args = || SendArgs {
        to: ToField::One("a,b".to_string()),
        body: "hi".to_string(),
        request: None,
        reply_by: Some("5m".to_string()),
        reply_to: None,
    };
    let mcp = send_command(me(), args(), Entrance::Mcp);
    let cli = send_command(me(), args(), Entrance::Cli);
    assert_eq!(mcp.to, vec!["a,b".to_string()]);
    assert_eq!(cli.to, vec!["a".to_string(), "b".to_string()]);
    assert!(!mcp.contract.request);
    assert_eq!(cli.contract.reply_by.as_deref(), Some("5m"));
    assert_eq!(mcp.from, me());
}

#[test]
fn pong_names_the_bound_identity() {
    let id = uuid::Uuid::new_v4();
    let s = pong(BoundIdentity { agent_id: id.as_u128(), epoch: 3 });
    assert_eq!(s, format!("pong agent={id} epoch=3"));
}

#[test]
fn the_first_broadcast_to_land_is_the_one_that_stays() {
    let mut slot: RosterBroadcastSlot<u32> = RosterBroadcastSlot::new();
    assert_eq!(slot.get(), None);
    slot.set(1);
    slot.set(2);
    assert_eq!(slot.get(), Some(&1));
}
