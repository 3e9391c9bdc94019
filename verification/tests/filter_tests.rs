use ouro::defaults::default_blocklist;
use ouro::exec_result::{blocked_from_json, exec_result_from_json, BlockedCommand, ExecResult};
use ouro::filter::{blocked_result, security_log_line, CommandFilter};

fn pairs(items: &[(&str, &str)]) -> Vec<(String, String)> {
    items.iter().map(|(p, r)| (p.to_string(), r.to_string())).collect()
}

// -- Construction -------------------------------------------------------------

#[test]
fn test_new_with_valid_patterns() {
    let patterns = pairs(&[(r"\bsudo\b", "no sudo")]);
    let filter = CommandFilter::new(&patterns);
    assert!(filter.is_ok());
}

#[test]
fn test_new_with_invalid_regex_returns_error() {
    let patterns = pairs(&[(r"[invalid", "bad regex")]);
    let filter = CommandFilter::new(&patterns);
    assert!(filter.is_err());
}

#[test]
fn test_from_defaults_constructs_successfully() {
    let filter = CommandFilter::from_defaults();
    assert!(filter.is_ok());
}

#[test]
fn test_custom_blocklist_works_independently() {
    let custom = pairs(&[(r"(?i)\bforbidden\b", "custom block")]);
    let filter = CommandFilter::new(&custom).unwrap();

    let result = filter.check("run forbidden command");
    assert!(result.is_some());
    assert_eq!(result.unwrap().reason, "custom block");

    let result = filter.check("sudo apt install foo");
    assert!(result.is_none(), "custom filter should not include default sudo pattern");
}

// -- Blocked commands ---------------------------------------------------------

#[test]
fn test_blocks_sudo() {
    let filter = CommandFilter::from_defaults().unwrap();
    let result = filter.check("sudo apt install foo");
    assert!(result.is_some(), "sudo should be blocked");
    let blocked = result.unwrap();
    assert!(blocked.blocked);
    assert!(blocked.reason.to_lowercase().contains("privilege")
        || blocked.reason.to_lowercase().contains("sudo"));
    assert_eq!(blocked.command, "sudo apt install foo");
}

#[test]
fn test_blocks_su() {
    let filter = CommandFilter::from_defaults().unwrap();
    let result = filter.check("su root");
    assert!(result.is_some(), "su should be blocked");
    let blocked = result.unwrap();
    assert!(blocked.reason.to_lowercase().contains("privilege")
        || blocked.reason.to_lowercase().contains("su"));
}

#[test]
fn test_blocks_doas() {
    let filter = CommandFilter::from_defaults().unwrap();
    let result = filter.check("doas rm foo");
    assert!(result.is_some(), "doas should be blocked");
    let blocked = result.unwrap();
    assert!(blocked.reason.to_lowercase().contains("privilege")
        || blocked.reason.to_lowercase().contains("doas"));
}

#[test]
fn test_blocks_rm_rf_root() {
    let filter = CommandFilter::from_defaults().unwrap();
    let result = filter.check("rm -rf /");
    assert!(result.is_some(), "rm -rf / should be blocked");
    let blocked = result.unwrap();
    assert!(blocked.reason.to_lowercase().contains("delet")
        || blocked.reason.to_lowercase().contains("root"));
}

#[test]
fn test_blocks_rm_rf_root_star() {
    let filter = CommandFilter::from_defaults().unwrap();
    assert!(filter.check("rm -rf /*").is_some(), "rm -rf /* should be blocked");
}

#[test]
fn test_blocks_rm_r_f_root_separated_flags() {
    let filter = CommandFilter::from_defaults().unwrap();
    assert!(filter.check("rm -r -f /").is_some(), "rm -r -f / should be blocked");
}

#[test]
fn test_blocks_write_to_etc() {
    let filter = CommandFilter::from_defaults().unwrap();
    let result = filter.check("> /etc/passwd");
    assert!(result.is_some(), "write to /etc should be blocked");
    let blocked = result.unwrap();
    assert!(blocked.reason.to_lowercase().contains("/etc")
        || blocked.reason.to_lowercase().contains("write"));
}

#[test]
fn test_blocks_write_to_usr() {
    let filter = CommandFilter::from_defaults().unwrap();
    assert!(filter.check("> /usr/local/bin/foo").is_some(), "write to /usr should be blocked");
}

#[test]
fn test_blocks_mkfs() {
    let filter = CommandFilter::from_defaults().unwrap();
    let result = filter.check("mkfs.ext4 /dev/sda1");
    assert!(result.is_some(), "mkfs should be blocked");
    assert!(result.unwrap().reason.to_lowercase().contains("format"));
}

#[test]
fn test_blocks_dd_device_write() {
    let filter = CommandFilter::from_defaults().unwrap();
    let result = filter.check("dd if=/dev/zero of=/dev/sda");
    assert!(result.is_some(), "dd device write should be blocked");
    let blocked = result.unwrap();
    assert!(blocked.reason.to_lowercase().contains("device")
        || blocked.reason.to_lowercase().contains("dd"));
}

#[test]
fn test_blocks_shutdown() {
    let filter = CommandFilter::from_defaults().unwrap();
    assert!(filter.check("shutdown -h now").is_some(), "shutdown should be blocked");
}

#[test]
fn test_blocks_reboot() {
    let filter = CommandFilter::from_defaults().unwrap();
    assert!(filter.check("reboot").is_some(), "reboot should be blocked");
}

#[test]
fn test_blocks_chmod_root() {
    let filter = CommandFilter::from_defaults().unwrap();
    assert!(filter.check("chmod 777 /etc").is_some(), "chmod at root level should be blocked");
}

// -- Allowed commands ---------------------------------------------------------

#[test]
fn test_allows_ls() {
    let filter = CommandFilter::from_defaults().unwrap();
    assert!(filter.check("ls -la").is_none(), "ls should be allowed");
}

#[test]
fn test_allows_cat_etc_hosts() {
    let filter = CommandFilter::from_defaults().unwrap();
    assert!(filter.check("cat /etc/hosts").is_none(), "reading /etc/hosts should be allowed");
}

#[test]
fn test_allows_pip_install() {
    let filter = CommandFilter::from_defaults().unwrap();
    assert!(filter.check("pip install requests").is_none(), "pip install should be allowed");
}

#[test]
fn test_allows_cargo_build() {
    let filter = CommandFilter::from_defaults().unwrap();
    assert!(filter.check("cargo build").is_none(), "cargo build should be allowed");
}

#[test]
fn test_allows_npm_install() {
    let filter = CommandFilter::from_defaults().unwrap();
    assert!(filter.check("npm install express").is_none(), "npm install should be allowed");
}

#[test]
fn test_allows_curl() {
    let filter = CommandFilter::from_defaults().unwrap();
    assert!(filter.check("curl https://example.com").is_none(), "curl should be allowed");
}

#[test]
fn test_allows_python() {
    let filter = CommandFilter::from_defaults().unwrap();
    assert!(filter.check("python3 script.py").is_none(), "python3 should be allowed");
}

#[test]
fn test_allows_rm_relative_path() {
    let filter = CommandFilter::from_defaults().unwrap();
    assert!(filter.check("rm -rf ./temp").is_none(), "rm on relative path should be allowed");
}

#[test]
fn test_allows_rm_file() {
    let filter = CommandFilter::from_defaults().unwrap();
    assert!(filter.check("rm my_file.txt").is_none(), "rm of a file should be allowed");
}

#[test]
fn test_allows_echo_redirect_relative() {
    let filter = CommandFilter::from_defaults().unwrap();
    assert!(
        filter.check("echo hello > output.txt").is_none(),
        "redirect to relative path should be allowed"
    );
}

// -- Edge cases ---------------------------------------------------------------

#[test]
fn test_blocks_sudo_case_insensitive() {
    let filter = CommandFilter::from_defaults().unwrap();
    assert!(filter.check("SUDO apt install foo").is_some(), "SUDO (uppercase) should be blocked");
}

#[test]
fn test_allows_empty_string() {
    let filter = CommandFilter::from_defaults().unwrap();
    assert!(filter.check("").is_none(), "empty string should be allowed");
}

#[test]
fn test_handles_very_long_command() {
    let filter = CommandFilter::from_defaults().unwrap();
    let long_command = "echo ".to_string() + &"a".repeat(2000);
    assert!(filter.check(&long_command).is_none(), "long safe command should be allowed");
}

#[test]
fn test_long_command_with_blocked_pattern() {
    let filter = CommandFilter::from_defaults().unwrap();
    let long_command = "a".repeat(1000) + " sudo do_something";
    assert!(filter.check(&long_command).is_some(), "long command with sudo should still be blocked");
}

// -- JSON ---------------------------------------------------------------------

#[test]
fn test_blocked_command_json_serialization() {
    let filter = CommandFilter::from_defaults().unwrap();
    let blocked = filter.check("sudo rm -rf /").unwrap();
    let json = blocked.to_json();

    let parsed: serde_json::Value = serde_json::from_str(&json).expect("should be valid JSON");
    assert_eq!(parsed["blocked"], true);
    assert!(parsed["reason"].is_string());
    assert_eq!(parsed["command"], "sudo rm -rf /");
}

#[test]
fn test_blocked_command_json_has_all_fields() {
    let blocked = BlockedCommand {
        blocked: true,
        reason: "test reason".to_string(),
        command: "test command".to_string(),
    };
    let json = blocked.to_json();
    let parsed: serde_json::Value = serde_json::from_str(&json).expect("should be valid JSON");

    assert_eq!(parsed["blocked"], true);
    assert_eq!(parsed["reason"], "test reason");
    assert_eq!(parsed["command"], "test command");
}

#[test]
fn blocked_command_roundtrips_through_its_json() {
    let blocked = BlockedCommand {
        blocked: true,
        reason: "quotes \" and \\ and\nnewlines".to_string(),
        command: "echo \"hi\"".to_string(),
    };
    let json = blocked.to_json();
    let back = blocked_from_json(&json).expect("parses back");
    assert_eq!(back.blocked, blocked.blocked);
    assert_eq!(back.reason, blocked.reason);
    assert_eq!(back.command, blocked.command);
}

#[test]
fn exec_result_roundtrips_through_its_json() {
    let er = ExecResult::from_exit("out\twith\ttabs".to_string(), "err\nlines".to_string(), 17);
    let json = er.to_json();
    let back = exec_result_from_json(&json).expect("parses back");
    assert_eq!(back.stdout, er.stdout);
    assert_eq!(back.stderr, er.stderr);
    assert_eq!(back.exit_code, Some(17));
    assert!(!back.timed_out);

    let timed = ExecResult::from_timeout("partial".to_string(), String::new());
    let json2 = timed.to_json();
    let back2 = exec_result_from_json(&json2).expect("parses back");
    assert_eq!(back2.exit_code, None);
    assert!(back2.timed_out);
}

#[test]
fn exec_result_json_is_serde_compatible() {
    let er = ExecResult::from_exit("hello".to_string(), "".to_string(), 0);
    let parsed: serde_json::Value = serde_json::from_str(&er.to_json()).unwrap();
    assert_eq!(parsed["stdout"], "hello");
    assert_eq!(parsed["exit_code"], 0);
    assert_eq!(parsed["timed_out"], false);
}

// -- Default blocklist --------------------------------------------------------

#[test]
fn test_default_blocklist_is_nonempty() {
    let blocklist = default_blocklist();
    assert!(!blocklist.is_empty(), "default blocklist should have entries");
    assert!(blocklist.len() >= 15, "default blocklist should cover multiple categories");
}

#[test]
fn test_default_blocklist_patterns_are_valid_regex() {
    let blocklist = default_blocklist();
    for (pattern, reason) in &blocklist {
        assert!(
            regex::Regex::new(pattern).is_ok(),
            "Pattern '{}' (reason: '{}') should be valid regex",
            pattern,
            reason
        );
    }
}

#[test]
fn test_default_blocklist_covers_all_categories() {
    let blocklist = default_blocklist();
    let reasons: Vec<&str> = blocklist.iter().map(|(_, r)| r.as_str()).collect();

    assert!(reasons.iter().any(|r| r.to_lowercase().contains("sudo")
        || r.to_lowercase().contains("privilege")),
        "blocklist should cover sudo/privilege escalation");
    assert!(reasons.iter().any(|r| r.to_lowercase().contains("su")
        || r.to_lowercase().contains("privilege")),
        "blocklist should cover su");
    assert!(reasons.iter().any(|r| r.to_lowercase().contains("doas")
        || r.to_lowercase().contains("privilege")),
        "blocklist should cover doas");
    assert!(reasons.iter().any(|r| r.to_lowercase().contains("delet")
        || r.to_lowercase().contains("root")),
        "blocklist should cover destructive root operations");
    assert!(reasons.iter().any(|r| r.to_lowercase().contains("/etc")
        || r.to_lowercase().contains("write")),
        "blocklist should cover system directory writes");
    assert!(reasons.iter().any(|r| r.to_lowercase().contains("format")
        || r.to_lowercase().contains("mkfs")),
        "blocklist should cover disk formatting");
    assert!(reasons.iter().any(|r| r.to_lowercase().contains("device")
        || r.to_lowercase().contains("dd")),
        "blocklist should cover device writes");
    assert!(reasons.iter().any(|r| r.to_lowercase().contains("shutdown")),
        "blocklist should cover system shutdown");
    assert!(reasons.iter().any(|r| r.to_lowercase().contains("reboot")),
        "blocklist should cover system reboot");
}

// -- The blocked path of dispatch ---------------------------------------------

#[test]
fn blocked_command_echoes_structure() {
    let filter = CommandFilter::from_defaults().unwrap();
    let blocked = filter.check("sudo ls").expect("sudo ls is blocked");
    let result = blocked_result(&blocked);

    assert_eq!(result.stdout, "");
    assert_eq!(result.exit_code, Some(126));
    assert!(!result.timed_out);

    let stderr: serde_json::Value = serde_json::from_str(&result.stderr).unwrap();
    assert_eq!(stderr["blocked"], true);
    assert!(stderr["reason"].as_str().unwrap().to_lowercase().contains("privilege"));
    assert_eq!(stderr["command"], "sudo ls");
}

#[test]
fn security_log_line_is_one_json_record() {
    let blocked = BlockedCommand {
        blocked: true,
        reason: "no".to_string(),
        command: "sudo x".to_string(),
    };
    let line = security_log_line(1700000000, &blocked);
    let parsed: serde_json::Value = serde_json::from_str(&line).unwrap();
    assert_eq!(parsed["timestamp"], 1700000000u64);
    assert_eq!(parsed["blocked"], true);
    assert_eq!(parsed["reason"], "no");
    assert_eq!(parsed["command"], "sudo x");
}
