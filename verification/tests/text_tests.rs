use laesutkontroll::login::parse_login_config;
use laesutkontroll::text::{chars_of, is_whitespace, split_lines, string_of, trim_str};

#[test]
fn whitespace_agrees_with_std() {
    for n in 0u32..=0x10FFFF {
        if let Some(c) = char::from_u32(n) {
            assert_eq!(is_whitespace(c), c.is_whitespace(), "{:#x}", n);
        }
    }
}

const SAMPLES: &[&str] = &[
    "",
    " ",
    "abc",
    "  abc  ",
    "\t\n a b \r\n",
    "\u{85}x\u{3000}",
    "\u{200b}y\u{200b}",
    "a\nb\r\nc",
    "a\r",
    "a\r\r\n",
    "\n",
    "\n\n",
    "x\n",
    "\r\n",
    "one\ntwo\n\nthree\r\n",
];

#[test]
fn trim_agrees_with_std() {
    for s in SAMPLES {
        assert_eq!(trim_str(s), s.trim(), "{:?}", s);
    }
}

#[test]
fn lines_agree_with_std() {
    for s in SAMPLES {
        let mine: Vec<String> = split_lines(&chars_of(s)).iter().map(string_of).collect();
        let std_lines: Vec<String> = s.lines().map(String::from).collect();
        assert_eq!(mine, std_lines, "{:?}", s);
        let buf_lines: Vec<String> =
            std::io::BufRead::lines(std::io::Cursor::new(s.as_bytes())).map(|l| l.unwrap()).collect();
        assert_eq!(mine, buf_lines, "{:?}", s);
    }
}

/// The configuration as the regular expressions `Key:\s*(\S+)` read it, line by line.
fn regex_config(text: &str) -> [String; 4] {
    let keys = [
        r"Username:\s*(\S+)",
        r"Password:\s*(\S+)",
        r"IP address:\s*(\S+)",
        r"Log location:\s*(\S+)",
    ];
    let mut out: [String; 4] = Default::default();
    for line in text.lines() {
        for (k, pattern) in keys.iter().enumerate() {
            let re = regex::Regex::new(pattern).unwrap();
            if let Some(c) = re.captures(line) {
                if let Some(v) = c.get(1) {
                    out[k] = v.as_str().to_string();
                }
            }
        }
    }
    out
}

#[test]
fn config_lines_agree_with_regex() {
    let texts = [
        "Username: john.doe@example.com\nPassword: Tr0ub4dor&3\nIP address: 192.168.1.1\nLog location: usr/local/bin/sensor_logs",
        "Username:\nUsername:a\u{a0}b\n",
        "xx Username:   \t u1 rest\nPassword:Username:zz\n",
        "IP address:\u{3000}IP address:9\r\nLog location: /var/log/\r\n",
        "Password:   \nPassword:p p\nnoise\nIP address:1\nIP address:2",
        "Log location:Log location:\nUsername:",
        "Username:\u{1680}\u{1680}x\u{2028}y",
        "IP address:",
        "",
    ];
    for t in texts {
        let want = regex_config(t);
        let d = parse_login_config(t);
        let text = d.config_text();
        let expected = format!(
            "Username:{}\nPassword:{}\nIP address:{}\nLog location:{}",
            want[0], want[1], want[2], want[3]
        );
        assert_eq!(text, expected, "{:?}", t);
    }
}
