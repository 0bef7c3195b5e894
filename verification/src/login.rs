//! Login data: the configuration file that holds it, the prompts that fill
//! what the file lacks, and the steps of the login on the web page.

use vstd::prelude::*;
use crate::html::selector_is_valid;
use crate::page::{csrf_css, csrf_token, page_token, ReadoutError};
use crate::post::{field, form_view};
use crate::text::{
    chars_of, copy_range, is_whitespace, is_ws, lemma_lines_first, lemma_lines_last, lines_of, split_lines, string_of, trim, trim_chars,
    views, is_trimmed, lemma_trim_idempotent, lemma_trim_is_trimmed, lemma_trimmed_fixed,
};

verus! {

/// What a `LoginData` holds.
pub struct LoginDataView {
    pub username: Seq<char>,
    pub password: Seq<char>,
    pub target_dict: Seq<char>,
    pub ip: Seq<char>,
}

/// The credentials, the address of the sensor web application and the
/// directory that the logs go to.
pub struct LoginData {
    username: String,
    password: String,
    target_dict: String,
    ip: String,
}

impl View for LoginData {
    type V = LoginDataView;

    closed spec fn view(&self) -> LoginDataView {
        LoginDataView {
            username: self.username@,
            password: self.password@,
            target_dict: self.target_dict@,
            ip: self.ip@,
        }
    }
}

/// Login data with every field empty.
pub open spec fn empty_login_data() -> LoginDataView {
    LoginDataView {
        username: Seq::empty(),
        password: Seq::empty(),
        target_dict: Seq::empty(),
        ip: Seq::empty(),
    }
}

impl LoginData {
    /// Login data with every field empty.
    pub fn new() -> (r: LoginData)
        ensures
            r@ == empty_login_data(),
    {
        LoginData {
            username: String::new(),
            password: String::new(),
            target_dict: String::new(),
            ip: String::new(),
        }
    }

    /// Replaces the user name.
    pub fn set_username(&mut self, username: &str)
        ensures
            final(self)@ == (LoginDataView { username: username@, ..old(self)@ }),
    {
        self.username = username.to_owned();
    }

    /// Replaces the password.
    pub fn set_password(&mut self, password: &str)
        ensures
            final(self)@ == (LoginDataView { password: password@, ..old(self)@ }),
    {
        self.password = password.to_owned();
    }

    /// Replaces the directory that the logs go to.
    pub fn set_target_dict(&mut self, target_dict: &str)
        ensures
            final(self)@ == (LoginDataView { target_dict: target_dict@, ..old(self)@ }),
    {
        self.target_dict = target_dict.to_owned();
    }

    /// Replaces the address of the web application.
    pub fn set_ip(&mut self, ip: &str)
        ensures
            final(self)@ == (LoginDataView { ip: ip@, ..old(self)@ }),
    {
        self.ip = ip.to_owned();
    }

    /// The directory that the logs go to.
    pub fn return_target_dict(&self) -> (r: &str)
        ensures
            r@ == self@.target_dict,
    {
        self.target_dict.as_str()
    }

    /// The address of the web application.
    pub fn return_ip(&self) -> (r: &str)
        ensures
            r@ == self@.ip,
    {
        self.ip.as_str()
    }
}


/// The number of whitespace characters at the start of `s`.
pub open spec fn ws_run(s: Seq<char>) -> nat
    decreases s.len(),
{
    if s.len() > 0 && is_ws(s[0]) {
        1 + ws_run(s.drop_first())
    } else {
        0
    }
}

/// The number of non-whitespace characters at the start of `s`.
pub open spec fn word_run(s: Seq<char>) -> nat
    decreases s.len(),
{
    if s.len() > 0 && !is_ws(s[0]) {
        1 + word_run(s.drop_first())
    } else {
        0
    }
}

proof fn lemma_ws_run_at(s: Seq<char>, k: int)
    requires
        0 <= k <= s.len(),
        k < s.len() ==> !is_ws(s[k]),
        forall|m: int| 0 <= m < k ==> is_ws(s[m]),
    ensures
        ws_run(s) == k,
    decreases s.len(),
{
    if k > 0 {
        assert forall|m: int| 0 <= m < k - 1 implies is_ws(s.drop_first()[m]) by {
            assert(s.drop_first()[m] == s[m + 1]);
        }
        lemma_ws_run_at(s.drop_first(), k - 1);
    }
}

proof fn lemma_word_run_at(s: Seq<char>, k: int)
    requires
        0 <= k <= s.len(),
        k < s.len() ==> is_ws(s[k]),
        forall|m: int| 0 <= m < k ==> !is_ws(s[m]),
    ensures
        word_run(s) == k,
    decreases s.len(),
{
    if k > 0 {
        assert forall|m: int| 0 <= m < k - 1 implies !is_ws(s.drop_first()[m]) by {
            assert(s.drop_first()[m] == s[m + 1]);
        }
        lemma_word_run_at(s.drop_first(), k - 1);
    }
}

/// Where the value starts that follows a key ending just before `q`: after
/// the whitespace there.
pub open spec fn value_start(line: Seq<char>, q: int) -> int {
    q + ws_run(line.skip(q))
}

/// `key` stands at `p` in `line`, and after it and the whitespace that
/// follows it stands at least one non-whitespace character.
pub open spec fn key_matches_at(line: Seq<char>, key: Seq<char>, p: int) -> bool {
    &&& 0 <= p
    &&& p + key.len() <= line.len()
    &&& line.subrange(p, p + key.len()) == key
    &&& value_start(line, p + key.len()) < line.len()
}

/// The run of non-whitespace characters that follows `key` at `p` and the
/// whitespace after it.
pub open spec fn value_at(line: Seq<char>, key: Seq<char>, p: int) -> Seq<char> {
    let vs = value_start(line, p + key.len());
    line.subrange(vs, vs + word_run(line.skip(vs)))
}

/// The first value for `key` at or after position `p` of `line`.
pub open spec fn capture_from(line: Seq<char>, key: Seq<char>, p: nat) -> Option<Seq<char>>
    decreases line.len() + 1 - p,
{
    if p > line.len() {
        None
    } else if key_matches_at(line, key, p as int) {
        Some(value_at(line, key, p as int))
    } else {
        capture_from(line, key, p + 1)
    }
}

/// What the first group of the regular expression `key\s*(\S+)` captures
/// in `line`: the leftmost place where `key` is followed, after optional
/// whitespace, by a non-whitespace character, and from there the longest
/// run of non-whitespace characters.
pub open spec fn capture(line: Seq<char>, key: Seq<char>) -> Option<Seq<char>> {
    capture_from(line, key, 0)
}

/// Whether `key` stands at `p` in `line`.
fn key_at(line: &Vec<char>, key: &Vec<char>, p: usize) -> (r: bool)
    requires
        p + key.len() <= line.len(),
    ensures
        r == (line@.subrange(p as int, p + key.len()) == key@),
{
    let kl = key.len();
    let mut i: usize = 0;
    while i < kl
        invariant
            kl == key.len(),
            p + kl <= line.len(),
            i <= kl,
            forall|m: int| 0 <= m < i ==> line@[p + m] == key@[m],
        decreases kl - i,
    {
        if line[p + i] != key[i] {
            assert(line@.subrange(p as int, p + kl)[i as int] != key@[i as int]);
            return false;
        }
        i = i + 1;
    }
    assert(line@.subrange(p as int, p + kl) =~= key@);
    true
}

/// The value that `capture` finds for `key` in `line`.
pub fn capture_value(line: &Vec<char>, key: &Vec<char>) -> (r: Option<Vec<char>>)
    ensures
        match r {
            Some(v) => capture(line@, key@) == Some(v@),
            None => capture(line@, key@) is None,
        },
{
    let n = line.len();
    let kl = key.len();
    let mut p: usize = 0;
    while p < n
        invariant
            n == line.len(),
            kl == key.len(),
            p <= n,
            capture(line@, key@) == capture_from(line@, key@, p as nat),
        decreases n - p,
    {
        if kl <= n - p && key_at(line, key, p) {
            let ghost rest = line@.skip(p + kl);
            let mut q = p + kl;
            while q < n && is_whitespace(line[q])
                invariant
                    n == line.len(),
                    p + kl <= q <= n,
                    forall|m: int| p + kl <= m < q ==> is_ws(line@[m]),
                decreases n - q,
            {
                q = q + 1;
            }
            proof {
                lemma_ws_run_at(rest, q - (p + kl));
            }
            if q < n {
                let mut e = q;
                while e < n && !is_whitespace(line[e])
                    invariant
                        n == line.len(),
                        q <= e <= n,
                        forall|m: int| q <= m < e ==> !is_ws(line@[m]),
                    decreases n - e,
                {
                    e = e + 1;
                }
                proof {
                    lemma_word_run_at(line@.skip(q as int), e - q);
                }
                return Some(copy_range(line, q, e));
            }
        }
        p = p + 1;
    }
    assert(!key_matches_at(line@, key@, n as int));
    assert(capture_from(line@, key@, (n + 1) as nat) is None);
    None
}


/// The key of the user name in the configuration file.
pub open spec fn username_key() -> Seq<char> {
    "Username:"@
}

/// The key of the password in the configuration file.
pub open spec fn password_key() -> Seq<char> {
    "Password:"@
}

/// The key of the address in the configuration file.
pub open spec fn ip_key() -> Seq<char> {
    "IP address:"@
}

/// The key of the log directory in the configuration file.
pub open spec fn target_dict_key() -> Seq<char> {
    "Log location:"@
}

/// What one line of the configuration file does to the login data: each
/// key that the line holds, followed by a value, sets its field to that
/// value.
pub open spec fn apply_line(d: LoginDataView, line: Seq<char>) -> LoginDataView {
    let d1 = match capture(line, username_key()) {
        Some(v) => LoginDataView { username: v, ..d },
        None => d,
    };
    let d2 = match capture(line, password_key()) {
        Some(v) => LoginDataView { password: v, ..d1 },
        None => d1,
    };
    let d3 = match capture(line, target_dict_key()) {
        Some(v) => LoginDataView { target_dict: v, ..d2 },
        None => d2,
    };
    match capture(line, ip_key()) {
        Some(v) => LoginDataView { ip: v, ..d3 },
        None => d3,
    }
}

/// The lines applied one after the other, from the first.
pub open spec fn apply_lines(d: LoginDataView, lines: Seq<Seq<char>>) -> LoginDataView
    decreases lines.len(),
{
    if lines.len() == 0 {
        d
    } else {
        apply_lines(apply_line(d, lines[0]), lines.drop_first())
    }
}

/// The login data that a configuration file holds.
pub open spec fn parse_config(text: Seq<char>) -> LoginDataView {
    apply_lines(empty_login_data(), lines_of(text))
}

/// Which field of the login data.
#[derive(Clone, Copy, Debug, PartialEq, Eq)]
pub enum LoginField {
    Username,
    Password,
    Ip,
    TargetDict,
}

/// The value of one field.
pub open spec fn field_of(d: LoginDataView, f: LoginField) -> Seq<char> {
    match f {
        LoginField::Username => d.username,
        LoginField::Password => d.password,
        LoginField::Ip => d.ip,
        LoginField::TargetDict => d.target_dict,
    }
}

/// The login data with one field replaced.
pub open spec fn with_field(d: LoginDataView, f: LoginField, v: Seq<char>) -> LoginDataView {
    match f {
        LoginField::Username => LoginDataView { username: v, ..d },
        LoginField::Password => LoginDataView { password: v, ..d },
        LoginField::Ip => LoginDataView { ip: v, ..d },
        LoginField::TargetDict => LoginDataView { target_dict: v, ..d },
    }
}

/// The first empty field, in the order in which the user is asked for them:
/// user name, password, address, log directory.
pub open spec fn next_missing(d: LoginDataView) -> Option<LoginField> {
    if d.username.len() == 0 {
        Some(LoginField::Username)
    } else if d.password.len() == 0 {
        Some(LoginField::Password)
    } else if d.ip.len() == 0 {
        Some(LoginField::Ip)
    } else if d.target_dict.len() == 0 {
        Some(LoginField::TargetDict)
    } else {
        None
    }
}

/// The login data as the program uses it: each field trimmed, and the log
/// directory ending in a slash.
pub open spec fn finalized(d: LoginDataView) -> LoginDataView {
    let t = trim(d.target_dict);
    LoginDataView {
        username: trim(d.username),
        password: trim(d.password),
        ip: trim(d.ip),
        target_dict: if t.len() > 0 && t.last() == '/' {
            t
        } else {
            t.push('/')
        },
    }
}

/// The configuration file that holds the login data.
pub open spec fn config_text(d: LoginDataView) -> Seq<char> {
    "Username:"@ + d.username + "\nPassword:"@ + d.password + "\nIP address:"@ + d.ip
        + "\nLog location:"@ + d.target_dict
}

impl LoginField {
    /// The question that asks the user for this field.
    pub fn prompt(&self) -> (r: &'static str)
        ensures
            r@ == match *self {
                LoginField::Username => "Please input your username: "@,
                LoginField::Password => "Please input your password: "@,
                LoginField::Ip => "Please input IP address: "@,
                LoginField::TargetDict => "Please input Log location: "@,
            },
    {
        match self {
            LoginField::Username => "Please input your username: ",
            LoginField::Password => "Please input your password: ",
            LoginField::Ip => "Please input IP address: ",
            LoginField::TargetDict => "Please input Log location: ",
        }
    }
}

impl LoginData {
    /// Applies one line of the configuration file (see `apply_line`).
    pub fn apply_config_line(&mut self, line: &Vec<char>)
        ensures
            final(self)@ == apply_line(old(self)@, line@),
    {
        let key = chars_of("Username:");
        if let Some(v) = capture_value(line, &key) {
            self.username = string_of(&v);
        }
        let key = chars_of("Password:");
        if let Some(v) = capture_value(line, &key) {
            self.password = string_of(&v);
        }
        let key = chars_of("Log location:");
        if let Some(v) = capture_value(line, &key) {
            self.target_dict = string_of(&v);
        }
        let key = chars_of("IP address:");
        if let Some(v) = capture_value(line, &key) {
            self.ip = string_of(&v);
        }
    }

    /// The first field that is still empty, if any (see `next_missing`).
    pub fn next_missing_field(&self) -> (r: Option<LoginField>)
        ensures
            r == next_missing(self@),
    {
        if self.username.as_str().is_empty() {
            Some(LoginField::Username)
        } else if self.password.as_str().is_empty() {
            Some(LoginField::Password)
        } else if self.ip.as_str().is_empty() {
            Some(LoginField::Ip)
        } else if self.target_dict.as_str().is_empty() {
            Some(LoginField::TargetDict)
        } else {
            None
        }
    }

    /// Appends what the user typed, line feed included, to one field.
    pub fn receive_input(&mut self, field: LoginField, input: &str)
        ensures
            final(self)@ == with_field(old(self)@, field, field_of(old(self)@, field) + input@),
    {
        match field {
            LoginField::Username => self.username.append(input),
            LoginField::Password => self.password.append(input),
            LoginField::Ip => self.ip.append(input),
            LoginField::TargetDict => self.target_dict.append(input),
        }
    }

    /// Trims every field and makes the log directory end in a slash (see
    /// `finalized`).
    pub fn finalize(&mut self)
        ensures
            final(self)@ == finalized(old(self)@),
    {
        let t = trim_chars(&chars_of(self.target_dict.as_str()));
        let mut t = t;
        if !(t.len() > 0 && t[t.len() - 1] == '/') {
            t.push('/');
        }
        self.target_dict = string_of(&t);
        self.username = string_of(&trim_chars(&chars_of(self.username.as_str())));
        self.password = string_of(&trim_chars(&chars_of(self.password.as_str())));
        self.ip = string_of(&trim_chars(&chars_of(self.ip.as_str())));
    }

    /// The text of the configuration file that holds this login data.
    pub fn config_text(&self) -> (r: String)
        ensures
            r@ == config_text(self@),
    {
        let mut r = String::new();
        r.append("Username:");
        r.append(self.username.as_str());
        r.append("\nPassword:");
        r.append(self.password.as_str());
        r.append("\nIP address:");
        r.append(self.ip.as_str());
        r.append("\nLog location:");
        r.append(self.target_dict.as_str());
        r
    }
}

/// The login data that a configuration file holds (see `parse_config`).
pub fn parse_login_config(text: &str) -> (r: LoginData)
    ensures
        r@ == parse_config(text@),
{
    let lines = split_lines(&chars_of(text));
    let ghost ls = lines_of(text@);
    let mut d = LoginData::new();
    let n = lines.len();
    assert(ls.skip(0) =~= ls);
    for i in 0..n
        invariant
            n == lines.len(),
            views(lines@) == ls,
            parse_config(text@) == apply_lines(d@, ls.skip(i as int)),
    {
        assert(ls.skip(i as int).drop_first() =~= ls.skip(i + 1));
        assert(ls.skip(i as int)[0] == lines@[i as int]@);
        d.apply_config_line(&lines[i]);
    }
    assert(ls.skip(n as int).len() == 0);
    d
}


/// A value that the configuration file keeps as it is: not empty, with no
/// whitespace, and holding none of the four keys.
pub open spec fn plain_value(v: Seq<char>) -> bool {
    &&& v.len() > 0
    &&& forall|i: int| 0 <= i < v.len() ==> !is_ws(#[trigger] v[i])
    &&& !holds(v, username_key())
    &&& !holds(v, password_key())
    &&& !holds(v, ip_key())
    &&& !holds(v, target_dict_key())
}

/// `k` stands at `q` in `line`.
pub open spec fn occurs_at(line: Seq<char>, k: Seq<char>, q: int) -> bool {
    0 <= q && q + k.len() <= line.len() && line.subrange(q, q + k.len()) == k
}

/// `k` stands somewhere in `v`.
pub open spec fn holds(v: Seq<char>, k: Seq<char>) -> bool {
    exists|q: int| occurs_at(v, k, q)
}

/// A key whose only colon is its last character.
spec fn colon_key(k: Seq<char>) -> bool {
    &&& k.len() > 0
    &&& k.last() == ':'
    &&& forall|i: int| 0 <= i < k.len() - 1 ==> #[trigger] k[i] != ':'
}

/// `k2` is not a suffix of `k1`.
spec fn not_suffix(k1: Seq<char>, k2: Seq<char>) -> bool {
    k2.len() <= k1.len() ==> k1.subrange(k1.len() - k2.len(), k1.len() as int) != k2
}

proof fn lemma_capture_own(k: Seq<char>, v: Seq<char>)
    requires
        plain_value(v),
    ensures
        capture(k + v, k) == Some(v),
{
    let line = k + v;
    assert(line.subrange(0, k.len() as int) =~= k);
    assert(line.skip(k.len() as int) =~= v);
    assert(ws_run(v) == 0);
    lemma_word_run_at(v, v.len() as int);
    assert(line.subrange(k.len() as int, (k.len() + v.len()) as int) =~= v);
}

proof fn lemma_capture_none_from(line: Seq<char>, k: Seq<char>, p: nat)
    requires
        forall|q: int| !#[trigger] occurs_at(line, k, q),
    ensures
        capture_from(line, k, p) is None,
    decreases line.len() + 1 - p,
{
    if p <= line.len() {
        assert(!occurs_at(line, k, p as int));
        lemma_capture_none_from(line, k, p + 1);
    }
}

proof fn lemma_capture_other(k1: Seq<char>, v: Seq<char>, k2: Seq<char>)
    requires
        v.len() > 0,
        !holds(v, k2),
        colon_key(k1),
        colon_key(k2),
        not_suffix(k1, k2),
    ensures
        capture(k1 + v, k2) is None,
{
    let line = k1 + v;
    assert forall|q: int| !#[trigger] occurs_at(line, k2, q) by {
        if occurs_at(line, k2, q) {
            let c = q + k2.len() - 1;
            assert(line.subrange(q, q + k2.len())[k2.len() - 1] == ':');
            assert(line[c] == ':');
            if q >= k1.len() {
                let p = q - k1.len();
                assert(v.subrange(p, p + k2.len()) =~= line.subrange(q, q + k2.len()));
                assert(occurs_at(v, k2, p));
            } else if c >= k1.len() {
                let m = k1.len() - 1 - q;
                assert(line.subrange(q, q + k2.len())[m] == line[k1.len() - 1]);
                assert(line[k1.len() - 1] == k1[k1.len() - 1]);
                assert(k2[m] == ':');
            } else if c < k1.len() - 1 {
                assert(line[c] == k1[c]);
            } else {
                assert(k1.subrange(k1.len() - k2.len(), k1.len() as int) =~= k2) by {
                    assert forall|i: int| 0 <= i < k2.len() implies k1.subrange(
                        k1.len() - k2.len(),
                        k1.len() as int,
                    )[i] == k2[i] by {
                        assert(line.subrange(q, q + k2.len())[i] == line[q + i]);
                    }
                }
            }
        }
    }
    lemma_capture_none_from(line, k2, 0);
}

proof fn lemma_keys()
    ensures
        colon_key(username_key()),
        colon_key(password_key()),
        colon_key(ip_key()),
        colon_key(target_dict_key()),
        not_suffix(username_key(), password_key()),
        not_suffix(username_key(), ip_key()),
        not_suffix(username_key(), target_dict_key()),
        not_suffix(password_key(), username_key()),
        not_suffix(password_key(), ip_key()),
        not_suffix(password_key(), target_dict_key()),
        not_suffix(ip_key(), username_key()),
        not_suffix(ip_key(), password_key()),
        not_suffix(ip_key(), target_dict_key()),
        not_suffix(target_dict_key(), username_key()),
        not_suffix(target_dict_key(), password_key()),
        not_suffix(target_dict_key(), ip_key()),
{
    reveal_strlit("Username:");
    reveal_strlit("Password:");
    reveal_strlit("IP address:");
    reveal_strlit("Log location:");
    let u = username_key();
    let p = password_key();
    let i = ip_key();
    let t = target_dict_key();
    assert(u.subrange(0, 9)[0] != p[0]);
    assert(p.subrange(0, 9)[0] != u[0]);
    assert(i.subrange(2, 11)[0] != u[0]);
    assert(i.subrange(2, 11)[0] != p[0]);
    assert(t.subrange(4, 13)[0] != u[0]);
    assert(t.subrange(4, 13)[0] != p[0]);
    assert(t.subrange(2, 13)[0] != i[0]);
}

/// The key that names a field in the configuration file.
pub open spec fn key_of(f: LoginField) -> Seq<char> {
    match f {
        LoginField::Username => username_key(),
        LoginField::Password => password_key(),
        LoginField::Ip => ip_key(),
        LoginField::TargetDict => target_dict_key(),
    }
}

/// One line of the configuration file, read on its own.
proof fn lemma_apply_key_line(d: LoginDataView, f: LoginField, v: Seq<char>)
    requires
        plain_value(v),
    ensures
        apply_line(d, key_of(f) + v) == with_field(d, f, v),
{
    lemma_keys();
    let line = key_of(f) + v;
    lemma_capture_own(key_of(f), v);
    if f != LoginField::Username {
        lemma_capture_other(key_of(f), v, username_key());
    }
    if f != LoginField::Password {
        lemma_capture_other(key_of(f), v, password_key());
    }
    if f != LoginField::Ip {
        lemma_capture_other(key_of(f), v, ip_key());
    }
    if f != LoginField::TargetDict {
        lemma_capture_other(key_of(f), v, target_dict_key());
    }
}

/// A key line holds no line feed and does not end in a carriage return.
proof fn lemma_key_line(f: LoginField, v: Seq<char>)
    requires
        plain_value(v),
    ensures
        forall|i: int| 0 <= i < (key_of(f) + v).len() ==> #[trigger] (key_of(f) + v)[i] != '\n',
        (key_of(f) + v).last() != '\r',
{
    lemma_keys();
    let l = key_of(f) + v;
    assert forall|i: int| 0 <= i < l.len() implies #[trigger] l[i] != '\n' by {
        if i >= key_of(f).len() {
            assert(l[i] == v[i - key_of(f).len()]);
        } else {
            reveal_strlit("Username:");
            reveal_strlit("Password:");
            reveal_strlit("IP address:");
            reveal_strlit("Log location:");
            assert(l[i] == key_of(f)[i]);
        }
    }
    assert(l.last() == v.last());
}

/// The configuration file that the program writes reads back as the login
/// data it was written from, where each value is plain (not empty, no
/// whitespace, none of the four keys in it; colons are allowed).
pub proof fn lemma_config_round_trip(d: LoginDataView)
    requires
        plain_value(d.username),
        plain_value(d.password),
        plain_value(d.ip),
        plain_value(d.target_dict),
    ensures
        parse_config(config_text(d)) == d,
{
    reveal_strlit("\nPassword:");
    reveal_strlit("\nIP address:");
    reveal_strlit("\nLog location:");
    reveal_strlit("Password:");
    reveal_strlit("IP address:");
    reveal_strlit("Log location:");
    let lu = username_key() + d.username;
    let lp = password_key() + d.password;
    let li = ip_key() + d.ip;
    let lt = target_dict_key() + d.target_dict;
    let nl = seq!['\n'];
    assert(config_text(d) =~= lu + nl + (lp + nl + (li + nl + lt)));
    lemma_key_line(LoginField::Username, d.username);
    lemma_key_line(LoginField::Password, d.password);
    lemma_key_line(LoginField::Ip, d.ip);
    lemma_key_line(LoginField::TargetDict, d.target_dict);
    lemma_lines_last(lt);
    lemma_lines_first(li, lt);
    lemma_lines_first(lp, li + nl + lt);
    lemma_lines_first(lu, lp + nl + (li + nl + lt));
    let ls = seq![lu, lp, li, lt];
    assert(lines_of(config_text(d)) =~= ls);
    let e = empty_login_data();
    lemma_apply_key_line(e, LoginField::Username, d.username);
    let d1 = with_field(e, LoginField::Username, d.username);
    lemma_apply_key_line(d1, LoginField::Password, d.password);
    let d2 = with_field(d1, LoginField::Password, d.password);
    lemma_apply_key_line(d2, LoginField::Ip, d.ip);
    let d3 = with_field(d2, LoginField::Ip, d.ip);
    lemma_apply_key_line(d3, LoginField::TargetDict, d.target_dict);
    assert(ls.drop_first() =~= seq![lp, li, lt]);
    assert(ls.drop_first().drop_first() =~= seq![li, lt]);
    assert(ls.drop_first().drop_first().drop_first() =~= seq![lt]);
    assert(seq![lt].drop_first() =~= Seq::<Seq<char>>::empty());
    let d4 = with_field(d3, LoginField::TargetDict, d.target_dict);
    assert(d4 == d);
    assert(apply_lines(d4, Seq::<Seq<char>>::empty()) == d4);
    assert(apply_lines(d3, seq![lt]) == d4);
    assert(apply_lines(d2, seq![li, lt]) == d4);
    assert(apply_lines(d1, seq![lp, li, lt]) == d4);
    assert(apply_lines(e, ls) == d4);
}


/// Making the login data ready for use a second time changes nothing.
pub proof fn lemma_finalize_idempotent(d: LoginDataView)
    ensures
        finalized(finalized(d)) == finalized(d),
{
    lemma_trim_idempotent(d.username);
    lemma_trim_idempotent(d.password);
    lemma_trim_idempotent(d.ip);
    let t = trim(d.target_dict);
    lemma_trim_is_trimmed(d.target_dict);
    let f = finalized(d).target_dict;
    assert(is_trimmed(f)) by {
        if !(t.len() > 0 && t.last() == '/') {
            assert(f.last() == '/');
            if t.len() > 0 {
                assert(f[0] == t[0]);
            }
        }
    }
    lemma_trimmed_fixed(f);
}

/// What the program saves, read back by its next run and made ready for
/// use, is the login data that it saved, where each value is plain.
pub proof fn lemma_saved_login_reads_back(d: LoginDataView)
    requires
        d == finalized(d),
        plain_value(d.username),
        plain_value(d.password),
        plain_value(d.ip),
        plain_value(d.target_dict),
    ensures
        finalized(parse_config(config_text(d))) == d,
{
    lemma_config_round_trip(d);
}


/// The fields of the login form.
pub open spec fn login_fields(d: LoginDataView, csrf: Seq<char>) -> Seq<(Seq<char>, Seq<char>)> {
    seq![("mail"@, d.username), ("pw"@, d.password), ("csrfmiddlewaretoken"@, csrf)]
}

/// The login form: user name, password and the CSRF token of the login page.
pub fn login_form(data: &LoginData, csrf: &str) -> (r: Vec<(String, String)>)
    ensures
        form_view(r@) == login_fields(data@, csrf@),
        r.len() == 3,
        r@[0].0@ == "mail"@ && r@[0].1@ == data@.username,
        r@[1].0@ == "pw"@ && r@[1].1@ == data@.password,
        r@[2].0@ == "csrfmiddlewaretoken"@ && r@[2].1@ == csrf@,
{
    let mut r: Vec<(String, String)> = Vec::new();
    r.push(field("mail", data.username.as_str()));
    r.push(field("pw", data.password.as_str()));
    r.push(field("csrfmiddlewaretoken", csrf));
    assert(form_view(r@) =~= login_fields(data@, csrf@));
    assert(form_view(r@)[0] == ("mail"@, data@.username));
    assert(form_view(r@)[1] == ("pw"@, data@.password));
    assert(form_view(r@)[2] == ("csrfmiddlewaretoken"@, csrf@));
    r
}

/// The login form for the login page `page`: the CSRF token is read from the
/// page (see `csrf_token` and `page_token`).
pub fn login_form_from_page(data: &LoginData, page: &str) -> (r: Result<
    Vec<(String, String)>,
    ReadoutError,
>)
    ensures
        r == Err::<Vec<(String, String)>, ReadoutError>(ReadoutError::InvalidSelector)
            <==> !selector_is_valid(csrf_css()),
        selector_is_valid(csrf_css()) ==> match r {
            Ok(f) => page_token(page@) is Some && form_view(f@) == login_fields(
                data@,
                page_token(page@)->0,
            ),
            Err(e) => page_token(page@) is None && e == ReadoutError::CsrfTokenNotFound,
        },
{
    match csrf_token(page) {
        Ok(c) => Ok(login_form(data, c.as_str())),
        Err(e) => Err(e),
    }
}

/// An error with a message.
#[derive(Debug)]
pub struct CustomError {
    pub message: String,
}

impl CustomError {
    /// An error with the given message.
    pub fn from(message: &str) -> (r: CustomError)
        ensures
            r.message@ == message@,
    {
        CustomError { message: message.to_owned() }
    }
}

/// Whether an HTTP status code reports success (`200` to `299`), as
/// `http::StatusCode::is_success` decides it.
pub open spec fn is_success(status: u16) -> bool {
    200 <= status < 300
}

/// The outcome of the login, by the status of the response to the form.
pub fn login_response(status: u16) -> (r: Result<(), CustomError>)
    ensures
        r is Ok <==> is_success(status),
        r matches Err(e) ==> e.message@ == "Login failed"@,
{
    if 200 <= status && status < 300 {
        Ok(())
    } else {
        Err(CustomError::from("Login failed"))
    }
}

} // verus!
