use app_launcher::configs::{
    get_app_configs, read_configs, remove_config_from_store, upsert_config_in_store, AppConfigs, StoreRead,
};
use app_launcher::registry::{LaunchedApps, Spawned};
use app_launcher::types::{AppConfig, AppConfigId, AppError};

fn config(id: &str, name: &str, icon: Option<&str>, cmd: &str) -> AppConfig {
    AppConfig {
        id: AppConfigId(id.to_string()),
        name: name.to_string(),
        icon: icon.map(|s| s.to_string()),
        launch_command: cmd.to_string(),
    }
}

/// Writing a collection and reading it back, as the store does.
fn round_trip(configs: &AppConfigs) -> AppConfigs {
    read_configs(StoreRead::Parsed(configs.to_vec())).unwrap()
}

fn same(a: &AppConfigs, b: &AppConfigs) -> bool {
    a.len() == b.len() && a.to_vec().iter().all(|c| b.get(&c.id) == Some(c))
}

fn store_of(list: Vec<AppConfig>) -> StoreRead {
    StoreRead::Parsed(list)
}

#[test]
fn test_upsert_config_in_file_insert() {
    let new_config = config("new_app", "New App", None, "new_cmd");
    let result = upsert_config_in_store(new_config.clone(), store_of(vec![]));
    assert!(result.is_ok());
    let returned_configs_map = result.unwrap();
    assert_eq!(returned_configs_map.len(), 1);
    assert!(returned_configs_map.contains_key(&new_config.id));
    assert_eq!(returned_configs_map.get(&new_config.id), Some(&new_config));
    let read_back_configs_map = round_trip(&returned_configs_map);
    assert!(same(&read_back_configs_map, &returned_configs_map));
}

#[test]
fn test_upsert_config_in_file_update() {
    let id_to_update = AppConfigId("app_to_update".to_string());
    let initial_config_original =
        config("app_to_update", "App To Update (Original)", Some("update_original.png"), "update_cmd_original");
    let other_config = config("other_app", "Other App", None, "other_cmd");
    let initial = vec![initial_config_original.clone(), other_config.clone()];
    let updated_config = config("app_to_update", "App To Update (Updated)", None, "update_cmd_updated");

    let result = upsert_config_in_store(updated_config.clone(), store_of(initial));
    assert!(result.is_ok());
    let returned_configs_map = result.unwrap();
    assert_eq!(returned_configs_map.len(), 2);
    assert!(returned_configs_map.contains_key(&id_to_update));
    assert_eq!(returned_configs_map.get(&id_to_update), Some(&updated_config));
    assert_eq!(returned_configs_map.get(&other_config.id), Some(&other_config));
    let read_back_configs_map = round_trip(&returned_configs_map);
    assert!(same(&read_back_configs_map, &returned_configs_map));
}

#[test]
fn test_upsert_config_in_file_empty_file_insert() {
    let new_config = config("first_app", "First App", Some("first.ico"), "first_cmd");
    let result = upsert_config_in_store(new_config.clone(), store_of(vec![]));
    assert!(result.is_ok());
    let returned_configs_map = result.unwrap();
    assert_eq!(returned_configs_map.len(), 1);
    assert!(returned_configs_map.contains_key(&new_config.id));
    assert_eq!(returned_configs_map.get(&new_config.id), Some(&new_config));
    let read_back_configs_map = round_trip(&returned_configs_map);
    assert!(same(&read_back_configs_map, &returned_configs_map));
}

#[test]
fn upsert_into_missing_store_creates_it() {
    let c = config("a", "A", None, "a");
    let r = upsert_config_in_store(c.clone(), StoreRead::Missing).unwrap();
    assert_eq!(r.to_vec(), vec![c]);
}

#[test]
fn upsert_into_malformed_store_is_parse_error() {
    let r = upsert_config_in_store(config("a", "A", None, "a"), StoreRead::Malformed("bad".to_string()));
    assert!(matches!(r, Err(AppError::ParseError(m)) if m == "bad"));
}

#[test]
fn second_upsert_replaces_without_duplicate() {
    let first = config("dup", "First", Some("1.png"), "one");
    let second = config("dup", "Second", None, "two --flag");
    let after_first = upsert_config_in_store(first, StoreRead::Missing).unwrap();
    let after_second = upsert_config_in_store(second.clone(), StoreRead::Parsed(after_first.to_vec())).unwrap();
    let listed = after_second.to_vec();
    assert_eq!(listed.len(), 1);
    assert_eq!(listed[0], second);
}

#[test]
fn test_read_configs_file_not_found() {
    let result = read_configs(StoreRead::Missing);
    assert!(result.is_ok());
    assert!(result.unwrap().len() == 0);
}

#[test]
fn test_read_configs_invalid_json() {
    let result = read_configs(StoreRead::Malformed("expected value at line 1 column 1".to_string()));
    assert!(result.is_err());
    assert!(matches!(result, Err(AppError::ParseError(_))));
}

#[test]
fn test_read_configs_empty_array() {
    let result = read_configs(store_of(vec![]));
    assert!(result.is_ok());
    assert!(result.unwrap().len() == 0);
}

#[test]
fn test_read_configs_valid_data() {
    let config1 = config("test1", "Test App 1", Some("icon1.png"), "cmd1");
    let config2 = config("test2", "Test App 2 No Icon", None, "cmd2");
    let result = read_configs(store_of(vec![config1.clone(), config2.clone()]));
    assert!(result.is_ok());
    let actual_configs_map = result.unwrap();
    assert_eq!(actual_configs_map.len(), 2);
    assert_eq!(actual_configs_map.get(&config1.id), Some(&config1));
    assert_eq!(actual_configs_map.get(&config2.id), Some(&config2));
}

#[test]
fn read_keeps_last_record_of_an_id() {
    let early = config("x", "Early", None, "early");
    let late = config("x", "Late", None, "late");
    let r = read_configs(store_of(vec![early, late.clone()])).unwrap();
    assert_eq!(r.len(), 1);
    assert_eq!(r.get(&late.id), Some(&late));
}

#[test]
fn unreadable_store_is_read_error() {
    let r = read_configs(StoreRead::Unreadable("permission denied".to_string()));
    assert!(matches!(r, Err(AppError::ReadError(m)) if m == "permission denied"));
}

#[test]
fn test_write_then_read_configs() {
    let config1 = config("combo", "Combo App", Some("combo.ico"), "combo --run");
    let config2 = config("combo2", "Combo App No Icon", None, "combo2 --run");
    let mut initial_configs_map = AppConfigs::new();
    initial_configs_map.upsert(config1.clone());
    initial_configs_map.upsert(config2.clone());
    let written = initial_configs_map.to_vec();
    assert_eq!(written.len(), 2);
    let read_result = read_configs(StoreRead::Parsed(written));
    assert!(read_result.is_ok());
    let read_configs_map = read_result.unwrap();
    assert!(same(&read_configs_map, &initial_configs_map));
}

#[test]
fn test_get_app_configs_file_not_found() {
    let result_value = get_app_configs(StoreRead::Missing).unwrap();
    assert!(result_value.is_empty());
}

#[test]
fn test_get_app_configs_invalid_json() {
    let result = get_app_configs(StoreRead::Malformed("this is not valid json".to_string()));
    assert!(result.is_err());
    assert!(matches!(result, Err(AppError::ParseError(_))));
}

#[test]
fn test_get_app_configs_success() {
    let expected_configs = vec![
        config("app1", "App One", Some("icon1.png"), "command1"),
        config("app2", "App Two", Some("icon2.png"), "command2 --arg"),
    ];
    let result_value = get_app_configs(StoreRead::Parsed(expected_configs.clone())).unwrap();
    assert_eq!(result_value.len(), expected_configs.len());
    for expected in expected_configs.iter() {
        assert!(
            result_value.iter().any(|result| result.id == expected.id
                && result.name == expected.name
                && result.icon == expected.icon
                && result.launch_command == expected.launch_command),
            "Expected config not found: {:?}",
            expected
        );
    }
}

fn three_configs() -> Vec<AppConfig> {
    vec![
        config("app1", "App One", Some("icon1.png"), "cmd1"),
        config("app_to_remove", "App To Remove", Some("remove.png"), "remove_cmd"),
        config("app3", "App Three", None, "cmd3"),
    ]
}

#[test]
fn test_remove_config_from_file_success() {
    let apps_state: LaunchedApps<u32> = LaunchedApps::default();
    let id_to_remove = AppConfigId("app_to_remove".to_string());
    let result = remove_config_from_store(&id_to_remove, store_of(three_configs()), &apps_state);
    assert!(result.is_ok());
    let remaining_configs_map = result.unwrap();
    assert_eq!(remaining_configs_map.len(), 2);
    assert!(!remaining_configs_map.contains_key(&id_to_remove));
    assert!(remaining_configs_map.contains_key(&AppConfigId("app1".to_string())));
    assert!(remaining_configs_map.contains_key(&AppConfigId("app3".to_string())));
    let read_back_map = round_trip(&remaining_configs_map);
    assert!(same(&read_back_map, &remaining_configs_map));
}

#[test]
fn test_remove_config_from_file_not_found() {
    let apps_state: LaunchedApps<u32> = LaunchedApps::default();
    let initial = vec![config("app1", "App One", Some("icon1.png"), "cmd1")];
    let id_to_remove = AppConfigId("non_existent_app".to_string());
    let result = remove_config_from_store(&id_to_remove, store_of(initial), &apps_state);
    assert!(result.is_err());
    assert_eq!(result.err(), Some(AppError::NotFound));
}

#[test]
fn test_remove_config_from_file_empty_file() {
    let apps_state: LaunchedApps<u32> = LaunchedApps::default();
    let id_to_remove = AppConfigId("any_id".to_string());
    let result = remove_config_from_store(&id_to_remove, store_of(vec![]), &apps_state);
    assert!(result.is_err());
    assert_eq!(result.err(), Some(AppError::NotFound));
}

#[test]
fn test_remove_config_from_file_app_running() {
    let mut apps_state: LaunchedApps<u32> = LaunchedApps::default();
    let id_to_remove = AppConfigId("running_app".to_string());
    apps_state.complete_launch(&id_to_remove, Ok(Spawned { pid: Some(31), process: 31 })).unwrap();
    let initial = vec![config("running_app", "Running App", Some("running.png"), "run_cmd")];
    let result = remove_config_from_store(&id_to_remove, store_of(initial), &apps_state);
    assert!(result.is_err());
    assert_eq!(result.err(), Some(AppError::AppRunning));
}

#[test]
fn remove_after_exit_is_allowed() {
    let mut apps_state: LaunchedApps<u32> = LaunchedApps::default();
    let gone = AppConfigId("app1".to_string());
    apps_state.complete_launch(&gone, Ok(Spawned { pid: Some(8), process: 8 })).unwrap();
    apps_state.record_exit(&gone, 8, app_launcher::types::AppExitResult::Success).unwrap();
    let r = remove_config_from_store(&gone, store_of(three_configs()), &apps_state).unwrap();
    assert_eq!(r.len(), 2);
    assert!(!r.contains_key(&gone));
}

#[test]
fn remove_from_missing_store_is_not_found() {
    let apps_state: LaunchedApps<u32> = LaunchedApps::new();
    let r = remove_config_from_store(&AppConfigId("x".to_string()), StoreRead::Missing, &apps_state);
    assert_eq!(r.err(), Some(AppError::NotFound));
}

#[test]
fn remove_checks_running_before_reading() {
    let mut apps_state: LaunchedApps<u32> = LaunchedApps::new();
    let busy = AppConfigId("busy".to_string());
    apps_state.complete_launch(&busy, Ok(Spawned { pid: Some(3), process: 3 })).unwrap();
    let r = remove_config_from_store(&busy, StoreRead::Malformed("bad".to_string()), &apps_state);
    assert_eq!(r.err(), Some(AppError::AppRunning));
}
