//! The proxy's settings, read from an ini text.

use configparser::ini::Ini;
use vstd::prelude::*;

verus! {

#[verifier::external_type_specification]
#[verifier::external_body]
pub struct ExIni(Ini);

/// What `configparser` finds for a section and key in an ini: the value
/// that `get` returns (sections and keys are matched without regard to
/// case); keys without a value are absent.
pub uninterp spec fn ini_entries(ini: Ini) -> Map<(Seq<char>, Seq<char>), Seq<char>>;

/// The entries that an ini made by `Ini::new` (its default settings) holds
/// after reading an ini text.
pub uninterp spec fn ini_text_entries(text: Seq<char>) -> Map<(Seq<char>, Seq<char>), Seq<char>>;

/// Whether an ini made by `Ini::new` (its default settings) can read an ini
/// text.
pub uninterp spec fn ini_text_parses(text: Seq<char>) -> bool;

/// The value of a `u64` written as decimal digits, optionally after `+`,
/// as `str::parse` reads it; `None` where it is not such a number or does
/// not fit.
pub open spec fn parse_u64(s: Seq<char>) -> Option<u64> {
    let digits = if s.len() > 0 && s[0] == '+' {
        s.drop_first()
    } else {
        s
    };
    if digits.len() > 0 && (forall|i: int| 0 <= i < digits.len() ==> '0' <= #[trigger] digits[i] <= '9')
        && digits_value(digits) <= u64::MAX {
        Some(digits_value(digits) as u64)
    } else {
        None
    }
}

/// The number decimal digits stand for.
pub open spec fn digits_value(d: Seq<char>) -> nat
    decreases d.len(),
{
    if d.len() == 0 {
        0
    } else {
        digits_value(d.drop_last()) * 10 + ((d.last() as nat) - 48) as nat
    }
}

/// ASCII letters compared without regard to case.
pub open spec fn ascii_lower(c: char) -> char {
    if 'A' <= c <= 'Z' {
        ((c as u32) + 32) as char
    } else {
        c
    }
}

pub open spec fn eq_ignore_ascii_case(a: Seq<char>, b: Seq<char>) -> bool {
    a.len() == b.len() && forall|i: int| 0 <= i < a.len() ==> ascii_lower(#[trigger] a[i]) == ascii_lower(b[i])
}

/// Parses an ini text with the default settings: calls `Ini::new`, then
/// `Ini::read` on the text. The outcome and the entries are named over the
/// text alone, which holds because the settings are always the defaults;
/// what makes a text fail to parse is left unsaid.
#[verifier::external_body]
fn ini_parse(text: String) -> (r: Result<Ini, String>)
    ensures
        r is Ok <==> ini_text_parses(text@),
        r matches Ok(ini) ==> ini_entries(ini) == ini_text_entries(text@),
{
    let mut ini = Ini::new();
    match ini.read(text) {
        Ok(_) => Ok(ini),
        Err(e) => Err(e),
    }
}

/// Calls `Ini::get`: the value of `key` in `section`, if any.
#[verifier::external_body]
fn ini_get(ini: &Ini, section: &str, key: &str) -> (r: Option<String>)
    ensures
        r is Some <==> ini_entries(*ini).contains_key((section@, key@)),
        r matches Some(v) ==> v@ == ini_entries(*ini)[(section@, key@)],
{
    ini.get(section, key)
}

/// Calls `Ini::getuint`: no value gives `Ok(None)`; a value is parsed as a
/// `u64`, an error where it is not one.
#[verifier::external_body]
fn ini_getuint(ini: &Ini, section: &str, key: &str) -> (r: Result<Option<u64>, String>)
    ensures
        uint_lookup(ini_entries(*ini), section@, key@, r),
{
    ini.getuint(section, key)
}

/// Calls `Ini::getbool`: no value gives `Ok(None)`; `true` or `false` in
/// any case gives that value; anything else is an error.
#[verifier::external_body]
fn ini_getbool(ini: &Ini, section: &str, key: &str) -> (r: Result<Option<bool>, String>)
    ensures
        bool_lookup(ini_entries(*ini), section@, key@, r),
{
    ini.getbool(section, key)
}

/// What `getuint` gives for a section and key of the entries.
pub open spec fn uint_lookup(
    e: Map<(Seq<char>, Seq<char>), Seq<char>>,
    section: Seq<char>,
    key: Seq<char>,
    r: Result<Option<u64>, String>,
) -> bool {
    if !e.contains_key((section, key)) {
        r matches Ok(v) && v is None
    } else {
        match parse_u64(e[(section, key)]) {
            Some(n) => r matches Ok(v) && v == Some(n),
            None => r is Err,
        }
    }
}

/// What `getbool` gives for a section and key of the entries.
pub open spec fn bool_lookup(
    e: Map<(Seq<char>, Seq<char>), Seq<char>>,
    section: Seq<char>,
    key: Seq<char>,
    r: Result<Option<bool>, String>,
) -> bool {
    if !e.contains_key((section, key)) {
        r matches Ok(v) && v is None
    } else if eq_ignore_ascii_case(e[(section, key)], "true"@) {
        r matches Ok(v) && v == Some(true)
    } else if eq_ignore_ascii_case(e[(section, key)], "false"@) {
        r matches Ok(v) && v == Some(false)
    } else {
        r is Err
    }
}

/// A string setting of the parsed entries.
pub open spec fn setting(e: Map<(Seq<char>, Seq<char>), Seq<char>>, section: Seq<char>, key: Seq<char>) -> Option<Seq<char>> {
    if e.contains_key((section, key)) {
        Some(e[(section, key)])
    } else {
        None
    }
}

/// A number setting of the parsed entries.
pub open spec fn number_setting(e: Map<(Seq<char>, Seq<char>), Seq<char>>, section: Seq<char>, key: Seq<char>) -> Option<u64> {
    if e.contains_key((section, key)) {
        parse_u64(e[(section, key)])
    } else {
        None
    }
}

/// A boolean setting of the parsed entries.
pub open spec fn bool_setting(e: Map<(Seq<char>, Seq<char>), Seq<char>>, section: Seq<char>, key: Seq<char>) -> Option<bool> {
    if e.contains_key((section, key)) {
        let v = e[(section, key)];
        if eq_ignore_ascii_case(v, "true"@) {
            Some(true)
        } else if eq_ignore_ascii_case(v, "false"@) {
            Some(false)
        } else {
            None
        }
    } else {
        None
    }
}

pub struct Config {}

impl Config {
    /// All settings of an ini text: the app and http listen addresses, the
    /// number of workers (cut to a `u8`), the proxy server's address and
    /// whether to write logs. `None` unless the text parses and every
    /// setting is there and well formed.
    pub fn get_all(text: String) -> (r: Option<(String, String, u8, String, bool)>)
        ensures
            r is Some <==> ini_text_parses(text@) && {
                let e = ini_text_entries(text@);
                &&& setting(e, "listen"@, "app"@) is Some
                &&& setting(e, "listen"@, "http"@) is Some
                &&& number_setting(e, "other"@, "worker"@) is Some
                &&& setting(e, "server"@, "addr"@) is Some
                &&& bool_setting(e, "other"@, "write_log"@) is Some
            },
            r matches Some((app, http, worker, addr, write_log)) ==> {
                let e = ini_text_entries(text@);
                &&& setting(e, "listen"@, "app"@) == Some(app@)
                &&& setting(e, "listen"@, "http"@) == Some(http@)
                &&& number_setting(e, "other"@, "worker"@) matches Some(w) && worker == w as u8
                &&& setting(e, "server"@, "addr"@) == Some(addr@)
                &&& bool_setting(e, "other"@, "write_log"@) == Some(write_log)
            },
    {
        let config = match ini_parse(text) {
            Ok(ini) => ini,
            Err(_) => {
                return None;
            },
        };
        let app = ini_get(&config, "listen", "app")?;
        let http = ini_get(&config, "listen", "http")?;
        let worker: u8 = match ini_getuint(&config, "other", "worker") {
            Ok(Some(w)) => w as u8,
            _ => {
                return None;
            },
        };
        let proxy_server_addr = ini_get(&config, "server", "addr")?;
        let write_log = match ini_getbool(&config, "other", "write_log") {
            Ok(Some(b)) => b,
            _ => {
                return None;
            },
        };
        Some((app, http, worker, proxy_server_addr, write_log))
    }

    /// The app and http listen addresses of an ini text.
    pub fn get_listen_addr(text: String) -> (r: Option<(String, String)>)
        ensures
            r is Some <==> ini_text_parses(text@) && setting(ini_text_entries(text@), "listen"@, "app"@) is Some
                && setting(ini_text_entries(text@), "listen"@, "http"@) is Some,
            r matches Some((app, http)) ==> {
                let e = ini_text_entries(text@);
                &&& setting(e, "listen"@, "app"@) == Some(app@)
                &&& setting(e, "listen"@, "http"@) == Some(http@)
            },
    {
        let config = match ini_parse(text) {
            Ok(ini) => ini,
            Err(_) => {
                return None;
            },
        };
        let app = ini_get(&config, "listen", "app")?;
        let http = ini_get(&config, "listen", "http")?;
        Some((app, http))
    }

    /// The proxy server's address in an ini text.
    pub fn get_proxy_server_addr(text: String) -> (r: Option<String>)
        ensures
            r is Some <==> ini_text_parses(text@) && setting(ini_text_entries(text@), "server"@, "addr"@) is Some,
            r matches Some(addr) ==> setting(ini_text_entries(text@), "server"@, "addr"@) == Some(addr@),
    {
        let config = match ini_parse(text) {
            Ok(ini) => ini,
            Err(_) => {
                return None;
            },
        };
        ini_get(&config, "server", "addr")
    }

    /// The settings file.
    pub fn path() -> (r: String)
        ensures
            r@ == "theshy.ini"@,
    {
        "theshy.ini".to_owned()
    }
}

} // verus!
