use rivet::admin::{convert_developer, ConvertDeveloperStep};
use rivet::build_get::{builds_response, builds_statement, convert_build, BuildRow};
use rivet::cdn::{namespace_auth_user_remove, namespace_create, MissingField};
use rivet::models::{CloudBootstrapCaptcha, CloudGamesExportLobbyLogsRequest, CloudGamesLogStream};
use rivet::query::BindValue;
use rivet::status::{bypass_token, status, Entitlement, StatusError, StatusQuery};
use rivet::user_search::{search_update, MissingUserId};

#[test]
fn captcha_model() {
    assert!(CloudBootstrapCaptcha::new().turnstile.is_none());
    assert!(CloudBootstrapCaptcha::default().turnstile.is_none());
}

#[test]
fn export_logs_model() {
    assert_eq!(CloudGamesExportLobbyLogsRequest::new(CloudGamesLogStream::StdErr).stream, CloudGamesLogStream::StdErr);
    assert_eq!(CloudGamesExportLobbyLogsRequest::new(CloudGamesLogStream::StdOut).stream, CloudGamesLogStream::StdOut);
    assert_eq!(CloudGamesExportLobbyLogsRequest::default().stream, CloudGamesLogStream::StdOut);
}

#[test]
fn developer_conversion() {
    assert_eq!(convert_developer(7, 1), ConvertDeveloperStep::AlreadyDeveloper);
    assert_eq!(convert_developer(7, 0), ConvertDeveloperStep::CreateDeveloperTeam { team_id: 7 });
}

fn row(id: u128, name: &str) -> BuildRow {
    BuildRow {
        build_id: id,
        game_id: id + 1,
        upload_id: id + 2,
        display_name: name.to_string(),
        image_tag: format!("tag:{name}"),
        create_ts: 1000 + id as i64,
    }
}

#[test]
fn build_lookup() {
    let st = builds_statement(vec![1, 2]);
    assert_eq!(
        st.sql,
        "SELECT build_id, game_id, upload_id, display_name, image_tag, create_ts\nFROM db_build.builds\nWHERE build_id = ANY($1)\n"
    );
    assert!(matches!(&st.binds[..], [BindValue::UuidList(ids)] if ids == &vec![1, 2]));
    let b = convert_build(row(10, "x"));
    assert_eq!((b.build_id, b.game_id, b.upload_id), (Some(10), Some(11), Some(12)));
    assert_eq!((b.display_name.as_str(), b.image_tag.as_str(), b.create_ts), ("x", "tag:x", 1010));
    let builds = builds_response(vec![row(1, "a"), row(5, "b")]);
    assert_eq!(builds.len(), 2);
    assert_eq!(builds[0].build_id, Some(1));
    assert_eq!(builds[1].display_name, "b");
}

#[test]
fn cdn_namespace_create() {
    let st = namespace_create(Some(42)).unwrap();
    assert_eq!(st.sql, "INSERT INTO db_cdn.game_namespaces (namespace_id)\nVALUES ($1)\n");
    assert!(matches!(&st.binds[..], [BindValue::Uuid(42)]));
    assert!(matches!(namespace_create(None), Err(MissingField::NamespaceId)));
}

#[test]
fn cdn_auth_user_remove() {
    let r = namespace_auth_user_remove(Some(9), &"alice".to_string()).unwrap();
    assert_eq!(r.statement.sql, "DELETE FROM db_cdn.game_namespace_auth_users WHERE namespace_id = $1 AND user_name = $2");
    assert!(matches!(&r.statement.binds[..], [BindValue::Uuid(9), BindValue::Text(u)] if u == "alice"));
    assert_eq!(r.config_update_namespace_id, 9);
    assert!(matches!(namespace_auth_user_remove(None, &"alice".to_string()), Err(MissingField::NamespaceId)));
}

#[test]
fn user_search_update() {
    let st = search_update(Some(3), 1_650_000_000_000).unwrap();
    assert_eq!(st.sql, "UPDATE users\nSET\n\tis_searchable = TRUE,\n\tupdate_ts = $1\nWHERE user_id = $2\n");
    assert!(matches!(&st.binds[..], [BindValue::I64(1_650_000_000_000), BindValue::Uuid(3)]));
    assert!(matches!(search_update(None, 0), Err(MissingUserId)));
}

#[test]
fn matchmaker_status_check() {
    let q = StatusQuery { region: "lnd-atl".to_string() };
    let c = status(Some("rivet.gg"), &q).unwrap();
    assert_eq!(c.origin, "https://test-game.rivet.gg/");
    assert_eq!(c.game_mode, "default");
    assert_eq!(c.region, "lnd-atl");
    assert_eq!(c.token.ttl_ms, 15 * 60 * 1000);
    assert_eq!(c.token.issuer, "api-status");
    assert_eq!(c.token.label, "byp");
    assert!(!c.token.refresh_token);
    assert!(c.token.with_client_info);
    assert_eq!(c.token.entitlements, vec![Entitlement::Bypass]);
    assert!(matches!(status(None, &q), Err(StatusError::MissingDomainCdn)));
    assert_eq!(bypass_token(Some("tok".to_string())), Ok("tok".to_string()));
    assert_eq!(bypass_token(None), Err(StatusError::MissingToken));
}
