use shipit::monitor::{fields, merge_ps_stats, parse_disk, truncate, DockerPsEntry, DockerStatsEntry};

fn ps(name: &str) -> DockerPsEntry {
    DockerPsEntry {
        id: "id".to_string(),
        names: name.to_string(),
        image: "img".to_string(),
        status: "Up 2 hours".to_string(),
        ports: "80/tcp".to_string(),
        state: "running".to_string(),
    }
}

fn stats(name: &str, cpu: &str, mem: &str) -> DockerStatsEntry {
    DockerStatsEntry { name: name.to_string(), cpu_perc: cpu.to_string(), mem_usage: mem.to_string(), mem_perc: "1%".to_string() }
}

#[test]
fn disk_line() {
    let d = parse_disk("  20G  5.1G   14G  27%\n").unwrap();
    assert_eq!((d.size.as_str(), d.used.as_str(), d.avail.as_str(), d.use_percent.as_str()), ("20G", "5.1G", "14G", "27%"));
    assert!(parse_disk("").is_none());
    assert!(parse_disk("20G 5G 14G").is_none());
    assert_eq!(fields(" a \t b  c "), vec!["a".to_string(), "b".to_string(), "c".to_string()]);
}

#[test]
fn truncation() {
    assert_eq!(truncate("short", 24), "short");
    assert_eq!(truncate("abcdefghij", 8), "abcde...");
    assert_eq!(truncate("abcdef", 2), "...");
}

#[test]
fn merge_uses_last_stats_row_and_used_memory() {
    let merged = merge_ps_stats(
        vec![ps("web"), ps("db")],
        vec![stats("web", "1.0%", "10MiB / 1GiB"), stats("web", "2.5%", "20MiB / 1GiB")],
    );
    assert_eq!(merged.len(), 2);
    assert_eq!(merged[0].name, "web");
    assert_eq!(merged[0].cpu_perc, "2.5%");
    assert_eq!(merged[0].mem_usage, "20MiB");
    assert_eq!(merged[0].ports, "80/tcp");
    assert_eq!(merged[1].cpu_perc, "");
    assert_eq!(merged[1].mem_usage, "");
}
