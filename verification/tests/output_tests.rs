use rbuster::output::{has_json_extension, FileWriter, OutputHandler};
use rbuster::record::{
    BucketResult, DirResult, DnsResultJson, FuzzResult, OutputRecord, VhostResult,
};

fn dir_json(path: &str, status: u16, size: usize) -> String {
    let mut map = serde_json::Map::new();
    map.insert(String::from("path"), serde_json::Value::from(path));
    map.insert(String::from("status"), serde_json::Value::from(status));
    map.insert(String::from("size"), serde_json::Value::from(size));
    map.insert(String::from("redirect"), serde_json::Value::Null);
    serde_json::to_string_pretty(&serde_json::Value::Object(map)).unwrap()
}

fn json_file(records: &[String]) -> String {
    let mut writer = FileWriter::new("results.json");
    assert!(writer.is_json());
    let mut file = writer.opening();
    for r in records {
        file.push_str(&writer.write_json(r));
    }
    file.push_str(&writer.finalize());
    file
}

fn parsed_len(file: &str) -> usize {
    let value: serde_json::Value = serde_json::from_str(file).expect("a JSON document");
    value.as_array().expect("a JSON array").len()
}

#[test]
fn json_path_is_decided_by_the_extension() {
    assert!(has_json_extension("out.json"));
    assert!(has_json_extension("dir/out.tar.json"));
    assert!(has_json_extension("..json"));
    assert!(!has_json_extension(".json"));
    assert!(!has_json_extension("dir/.json"));
    assert!(!has_json_extension("json"));
    assert!(!has_json_extension("out.JSON"));
    assert!(!has_json_extension("out.txt"));
    assert!(!has_json_extension("out.json.txt"));
    assert!(!has_json_extension(""));
}

#[test]
fn json_output_with_no_match_is_an_empty_array() {
    let file = json_file(&[]);
    assert_eq!(file, "[\n\n]\n");
    assert_eq!(parsed_len(&file), 0);
}

#[test]
fn json_output_with_one_match_is_an_array_of_one() {
    let file = json_file(&[dir_json("/admin", 200, 10)]);
    assert_eq!(parsed_len(&file), 1);
    assert!(file.starts_with("[\n{"));
    assert!(file.ends_with("}\n]\n"));
}

#[test]
fn json_output_with_three_matches_is_an_array_of_three() {
    let records = [
        dir_json("/admin", 200, 10),
        dir_json("/login", 301, 0),
        dir_json("/a,b\n", 403, 77),
    ];
    let file = json_file(&records);
    assert_eq!(parsed_len(&file), 3);
    assert_eq!(
        file,
        format!("[\n{},\n{},\n{}\n]\n", records[0], records[1], records[2])
    );
    let value: serde_json::Value = serde_json::from_str(&file).unwrap();
    assert_eq!(value[2]["path"], "/a,b\n");
    assert_eq!(value[1]["status"], 301);
}

#[test]
fn json_writer_takes_nothing_after_finalize() {
    let mut writer = FileWriter::new("a.json");
    let mut file = writer.opening();
    file.push_str(&writer.write_json("1"));
    file.push_str(&writer.finalize());
    assert_eq!(writer.write_json("2"), "");
    assert_eq!(writer.finalize(), "");
    assert_eq!(writer.write_line("x"), "");
    assert_eq!(file, "[\n1\n]\n");
}

#[test]
fn text_writer_gives_lines() {
    let mut writer = FileWriter::new("results.txt");
    assert!(!writer.is_json());
    assert_eq!(writer.opening(), "");
    assert_eq!(writer.write_line("/admin (Status: 200) [Size: 10]"), "/admin (Status: 200) [Size: 10]\n");
    assert_eq!(writer.write_json("{}"), "");
    assert_eq!(writer.write_line(""), "\n");
    assert_eq!(writer.finalize(), "");
    assert_eq!(writer.write_line("late"), "late\n");
    assert_eq!(writer.finalize(), "");
    assert_eq!(writer.write_line("later"), "later\n");
}

#[test]
fn record_lines_have_their_formats() {
    let dir = OutputRecord::Dir(DirResult {
        path: String::from("/admin"),
        status: 200,
        size: 1532,
        redirect: None,
    });
    assert_eq!(dir.line(), "/admin (Status: 200) [Size: 1532]");
    let vhost = OutputRecord::Vhost(VhostResult { host: String::from("dev.x"), status: 404, size: 0 });
    assert_eq!(vhost.line(), "dev.x (Status: 404) [Size: 0]");
    let dns = OutputRecord::Dns(DnsResultJson {
        subdomain: String::from("www.x"),
        ips: vec![String::from("1.2.3.4"), String::from("::1")],
        cnames: vec![String::from("c.x.")],
    });
    assert_eq!(dns.line(), "www.x [1.2.3.4, ::1]");
    let lonely = OutputRecord::Dns(DnsResultJson {
        subdomain: String::from("a"),
        ips: Vec::new(),
        cnames: Vec::new(),
    });
    assert_eq!(lonely.line(), "a []");
    let fuzz = OutputRecord::Fuzz(FuzzResult {
        payload: String::from("p"),
        status: 500,
        size: 12,
        words: 3,
        lines: 2,
    });
    assert_eq!(fuzz.line(), "p [Status: 500, Size: 12, Words: 3, Lines: 2]");
    let bucket = OutputRecord::Bucket(BucketResult {
        name: String::from("b"),
        status: String::from("public"),
        files: vec![String::from("k1"), String::from("k2")],
    });
    assert_eq!(bucket.line(), "b [public] files: 2");
    assert_eq!(OutputRecord::Tftp(String::from("boot.cfg")).line(), "boot.cfg");
}

#[test]
fn handler_without_a_file_hands_out_nothing() {
    let mut handler = OutputHandler::new(None);
    assert!(handler.file_writer().is_none());
    assert!(!handler.wants_json());
    assert_eq!(handler.opening(), "");
    assert_eq!(handler.emit(&OutputRecord::Tftp(String::from("f")), "\"f\""), "");
    assert_eq!(handler.finalize(), "");
}

#[test]
fn handler_picks_line_or_json_by_the_file() {
    let record = OutputRecord::Tftp(String::from("boot.cfg"));
    let mut text = OutputHandler::new(Some("out.log"));
    assert!(!text.wants_json());
    let mut file = text.opening();
    file.push_str(&text.emit(&record, "\"boot.cfg\""));
    file.push_str(&text.emit(&record, "\"boot.cfg\""));
    file.push_str(&text.finalize());
    file.push_str(&text.emit(&record, "\"boot.cfg\""));
    assert_eq!(file, "boot.cfg\nboot.cfg\nboot.cfg\n");

    let mut json = OutputHandler::new(Some("out.json"));
    assert!(json.wants_json());
    assert!(json.file_writer().unwrap().is_json());
    let mut file = json.opening();
    file.push_str(&json.emit(&record, "\"boot.cfg\""));
    file.push_str(&json.emit(&record, "\"other\""));
    file.push_str(&json.finalize());
    file.push_str(&json.emit(&record, "\"late\""));
    assert_eq!(file, "[\n\"boot.cfg\",\n\"other\"\n]\n");
    assert_eq!(parsed_len(&file), 2);
}
