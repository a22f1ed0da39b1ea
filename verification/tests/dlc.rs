use creamlinux::dlc::{
    configuration_path, enabled_dlcs, get_all_dlcs, get_enabled_dlcs, read_configuration,
    update_dlc_configuration, with_states, write_cream_api_ini, DlcInfo, DlcInfoWithState,
};
use creamlinux::installer::ErrorKind;
use creamlinux::stored::Stored;

fn dlc(appid: &str, name: &str, enabled: bool) -> DlcInfoWithState {
    DlcInfoWithState { appid: appid.to_string(), name: name.to_string(), enabled }
}

const SAMPLE: &str = "APPID = 480\n[config]\nissubscribedapp_on_false_use_real = true\n[methods]\ndisable_steamapps_issubscribedapp = false\n[dlc]\n100 = First\n# 200 = Second\n; a remark\n\n300=Third\n";

#[test]
fn fresh_configuration_lists_every_dlc() {
    let dlcs = vec![
        DlcInfo { appid: "100".to_string(), name: "First".to_string() },
        DlcInfo { appid: "200".to_string(), name: "Second One".to_string() },
    ];
    assert_eq!(
        write_cream_api_ini("480", &dlcs),
        "APPID = 480\n[config]\nissubscribedapp_on_false_use_real = true\n[methods]\ndisable_steamapps_issubscribedapp = false\n[dlc]\n100 = First\n200 = Second One\n"
    );
    assert_eq!(
        write_cream_api_ini("7", &Vec::new()),
        "APPID = 7\n[config]\nissubscribedapp_on_false_use_real = true\n[methods]\ndisable_steamapps_issubscribedapp = false\n[dlc]\n"
    );
}

#[test]
fn all_dlcs_are_listed_with_their_state() {
    let all = get_all_dlcs(SAMPLE);
    let got: Vec<(String, String, bool)> =
        all.iter().map(|d| (d.appid.clone(), d.name.clone(), d.enabled)).collect();
    assert_eq!(
        got,
        vec![
            ("100".to_string(), "First".to_string(), true),
            ("200".to_string(), "Second".to_string(), false),
            ("300".to_string(), "Third".to_string(), true),
        ]
    );
}

#[test]
fn names_lose_their_quotation_marks() {
    let all = get_all_dlcs("[dlc]\n1 = \"Quoted\"\n## 2 =  \"\"Twice\"  \n3 = plain = more\n");
    assert_eq!(all.len(), 3);
    assert_eq!(all[0].name, "Quoted");
    assert_eq!(all[1].appid, "2");
    assert_eq!(all[1].name, "Twice");
    assert!(!all[1].enabled);
    assert_eq!(all[2].appid, "3");
    assert_eq!(all[2].name, "plain = more");
}

#[test]
fn lines_outside_the_section_are_not_listed() {
    let text = "1 = before\n[dlc]\n2 = inside\n[other]\n3 = after\n[dlc]\n4 = again\n";
    let all = get_all_dlcs(text);
    let ids: Vec<String> = all.iter().map(|d| d.appid.clone()).collect();
    assert_eq!(ids, vec!["2", "4"]);
    assert_eq!(get_enabled_dlcs(text), vec!["2", "4"]);
}

#[test]
fn enabled_dlcs_leave_out_lines_switched_off() {
    assert_eq!(get_enabled_dlcs(SAMPLE), vec!["100", "300"]);
    assert_eq!(get_enabled_dlcs("[dlc]\nloose\n#x\n"), vec!["loose"]);
    assert_eq!(get_enabled_dlcs(""), Vec::<String>::new());
}

#[test]
fn update_switches_lines_and_keeps_the_rest() {
    let desired = vec![dlc("100", "ignored name", false), dlc("200", "Second", true)];
    let updated = update_dlc_configuration(SAMPLE, &desired);
    assert_eq!(
        updated,
        "APPID = 480\n[config]\nissubscribedapp_on_false_use_real = true\n[methods]\ndisable_steamapps_issubscribedapp = false\n[dlc]\n# 100 = First\n200 = Second\n; a remark\n\n300=Third"
    );
}

#[test]
fn update_adds_missing_dlcs_at_the_end_of_the_section() {
    let text = "[dlc]\n1 = One\n[tail]\nkey = value\n";
    let desired = vec![dlc("2", "Two", true), dlc("1", "One", true), dlc("3", "Three", false)];
    assert_eq!(
        update_dlc_configuration(text, &desired),
        "[dlc]\n1 = One\n2 = Two\n# 3 = Three\n[tail]\nkey = value"
    );
}

#[test]
fn update_adds_missing_dlcs_when_the_text_ends_in_the_section() {
    let desired = vec![dlc("9", "Nine", true)];
    assert_eq!(update_dlc_configuration("[dlc]\n1 = One", &desired), "[dlc]\n1 = One\n9 = Nine");
    assert_eq!(update_dlc_configuration("[dlc]", &desired), "[dlc]\n9 = Nine");
    assert_eq!(update_dlc_configuration("no section", &desired), "no section");
    assert_eq!(update_dlc_configuration("", &desired), "");
}

#[test]
fn the_last_state_for_an_identifier_counts() {
    let desired = vec![dlc("1", "a", true), dlc("1", "b", false)];
    assert_eq!(update_dlc_configuration("[dlc]\n1 = One\n", &desired), "[dlc]\n# 1 = One");
    assert_eq!(update_dlc_configuration("[dlc]\n", &desired), "[dlc]\n# 1 = b");
}

#[test]
fn applying_the_same_state_twice_changes_nothing() {
    let desired = vec![
        dlc("100", "First", false),
        dlc("200", "Second", true),
        dlc("400", "Fourth", true),
        dlc("500", "", false),
    ];
    for text in [SAMPLE, "[dlc]", "[dlc]\n  100=First\n[x]\n[dlc]\n# 400 = F", "a\r\nb", "x = y"] {
        let once = update_dlc_configuration(text, &desired);
        let twice = update_dlc_configuration(&once, &desired);
        assert_eq!(once, twice);
    }
}

#[test]
fn a_blank_last_line_is_lost_on_the_second_reading() {
    let once = update_dlc_configuration("[dlc]\n\n", &Vec::new());
    assert_eq!(once, "[dlc]\n");
    assert_eq!(update_dlc_configuration(&once, &Vec::new()), "[dlc]");
}

#[test]
fn selections_and_their_enabled_part() {
    let selected = vec![dlc("1", "a", true), dlc("2", "b", false), dlc("3", "c", true)];
    let enabled = enabled_dlcs(&selected);
    let ids: Vec<String> = enabled.iter().map(|d| d.appid.clone()).collect();
    assert_eq!(ids, vec!["1", "3"]);
    let back = with_states(&enabled);
    assert_eq!(back.len(), 2);
    assert!(back.iter().all(|d| d.enabled));
    assert_eq!(back[1].name, "c");
}

#[test]
fn a_title_without_the_file_has_no_configuration() {
    assert_eq!(configuration_path("/games/x"), "/games/x/cream_api.ini");
    let missing = read_configuration("/games/x", Stored::Absent).unwrap_err();
    assert_eq!(missing.kind(), ErrorKind::NotFound);
    assert_eq!(missing.message(), "cream_api.ini not found at /games/x/cream_api.ini");
    let broken = read_configuration("/games/x", Stored::Unreadable).unwrap_err();
    assert_eq!(broken.kind(), ErrorKind::IoFailure);
    let text = read_configuration("/games/x", Stored::Value("[dlc]\n".to_string())).unwrap();
    assert_eq!(text, "[dlc]\n");
}
