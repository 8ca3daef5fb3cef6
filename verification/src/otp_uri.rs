//! The `otpauth` URI of one credential: reading one into its fields, turning
//! the fields into an entry, and writing an entry as a URI.

use crate::decimal::{decimal, lemma_decimal_round_trip, parse_decimal, parsed, push_decimal};
use crate::entry::{lemma_algorithm_name_round_trip, Algorithm, Entry, EntryView, Id, TOTPConfig};
use crate::text::{
    append_chars, append_str, chars_view, copy_chars, find_char, first_index, from_chars,
    lemma_first_index, lemma_first_index_is, lemma_without_char, lemma_without_pattern_subset,
    lines_of, remove_pattern, same_chars, slice_chars, split_lines, to_chars, trim, trimmed,
    without_pattern,
};
use vstd::prelude::*;

verus! {

/// The parts of a URL that the codec reads.
#[derive(Debug)]
pub struct UrlParts {
    pub scheme: String,
    pub host: Option<String>,
    pub path: String,
    /// The query's pairs, decoded, in the order in which they stand.
    pub query: Vec<(String, String)>,
}

/// The parts of a URL as plain values.
pub struct UrlPartsView {
    pub scheme: Seq<char>,
    pub host: Option<Seq<char>>,
    pub path: Seq<char>,
    pub query: Seq<(Seq<char>, Seq<char>)>,
}

/// The text of an optional string.
pub open spec fn text_of(s: Option<String>) -> Option<Seq<char>> {
    match s {
        Some(s) => Some(s@),
        None => None,
    }
}

/// The pairs of a query as plain values.
pub open spec fn pairs_of(query: Seq<(String, String)>) -> Seq<(Seq<char>, Seq<char>)> {
    query.map_values(|p: (String, String)| (p.0@, p.1@))
}

impl View for UrlParts {
    type V = UrlPartsView;

    open spec fn view(&self) -> UrlPartsView {
        UrlPartsView {
            scheme: self.scheme@,
            host: text_of(self.host),
            path: self.path@,
            query: pairs_of(self.query@),
        }
    }
}

/// What `url::Url::parse` makes of a text: the parts of the URL, or the
/// message of the error.
pub uninterp spec fn url_split(uri: Seq<char>) -> Result<UrlPartsView, Seq<char>>;

/// What `urlencoding::decode` returns: the text with its percent escapes
/// resolved, or nothing where the result is no UTF-8.
pub uninterp spec fn percent_decoded(text: Seq<char>) -> Option<Seq<char>>;

/// What `urlencoding::encode` returns: the text with every byte but
/// letters, digits, `-`, `_`, `.` and `~` written as a percent escape.
pub uninterp spec fn percent_encoded(text: Seq<char>) -> Seq<char>;

/// `url::Url::parse`, with the URL taken apart by `Url::scheme`,
/// `Url::host_str`, `Url::path` and `Url::query_pairs`, which decodes the
/// query's pairs; an error is given as its message. All that is claimed is
/// that the same text always gives the same parts or the same message.
#[verifier::external_body]
fn split_url(uri: &str) -> (r: Result<UrlParts, String>)
    ensures
        r matches Ok(parts) ==> url_split(uri@) matches Ok(p) && p == parts@,
        r matches Err(message) ==> url_split(uri@) matches Err(m) && m == message@,
{
    match url::Url::parse(uri) {
        Ok(u) => Ok(
            UrlParts {
                scheme: u.scheme().to_string(),
                host: u.host_str().map(str::to_string),
                path: u.path().to_string(),
                query: u.query_pairs().into_owned().collect(),
            },
        ),
        Err(e) => Err(e.to_string()),
    }
}

/// The text parses as a URL and names a host.
pub open spec fn has_host(uri: Seq<char>) -> bool {
    url_split(uri) matches Ok(parts) && parts.host is Some
}

/// Whether the text parses as a URL and names a host.
pub fn names_host(uri: &str) -> (r: bool)
    ensures
        r == has_host(uri@),
{
    match split_url(uri) {
        Ok(parts) => parts.host.is_some(),
        Err(_) => false,
    }
}

/// `urlencoding::decode`: resolves the percent escapes of a text and reads
/// the bytes as UTF-8. All that is claimed is that the same text always
/// decodes alike.
#[verifier::external_body]
fn percent_decode(text: &str) -> (r: Option<String>)
    ensures
        r is Some == percent_decoded(text@) is Some,
        r matches Some(s) ==> percent_decoded(text@) == Some(s@),
{
    match urlencoding::decode(text) {
        Ok(s) => Some(s.into_owned()),
        Err(_) => None,
    }
}

/// `urlencoding::encode`: writes every byte of a text but letters, digits,
/// `-`, `_`, `.` and `~` as a percent escape, so that the result is no
/// shorter than the text. What it returns, `urlencoding::decode` turns back
/// into the text.
#[verifier::external_body]
fn percent_encode(text: &str) -> (r: String)
    ensures
        r@ == percent_encoded(text@),
        r@.len() >= text@.len(),
        percent_decoded(r@) == Some(text@),
{
    urlencoding::encode(text).into_owned()
}

/// The fields of an `otpauth` URI.
#[derive(Debug)]
pub struct OtpUri {
    pub label: Option<String>,
    pub issuer: Option<String>,
    pub account_name: Option<String>,
    pub secret: String,
    pub algorithm: Option<String>,
    pub digits: Option<u32>,
}

/// The fields of an `otpauth` URI as plain values.
pub struct OtpUriView {
    pub label: Option<Seq<char>>,
    pub issuer: Option<Seq<char>>,
    pub account_name: Option<Seq<char>>,
    pub secret: Seq<char>,
    pub algorithm: Option<Seq<char>>,
    pub digits: Option<u32>,
}

impl View for OtpUri {
    type V = OtpUriView;

    open spec fn view(&self) -> OtpUriView {
        OtpUriView {
            label: text_of(self.label),
            issuer: text_of(self.issuer),
            account_name: text_of(self.account_name),
            secret: self.secret@,
            algorithm: text_of(self.algorithm),
            digits: self.digits,
        }
    }
}

/// Why a text is no `otpauth` URI of a time-based credential.
#[derive(Debug)]
pub enum ParseError {
    /// The text is no URL; the parser's message.
    InvalidUrl(String),
    /// The scheme is not `otpauth`; the scheme found.
    InvalidScheme(String),
    /// The host is not `totp`; the host found, or `missing`.
    InvalidOtpType(String),
    /// No `secret` parameter.
    MissingSecret,
    /// A parameter does not read; its name.
    InvalidParameter(String),
}

/// A parse error as plain values.
pub enum ParseErrorView {
    InvalidUrl(Seq<char>),
    InvalidScheme(Seq<char>),
    InvalidOtpType(Seq<char>),
    MissingSecret,
    InvalidParameter(Seq<char>),
}

impl View for ParseError {
    type V = ParseErrorView;

    open spec fn view(&self) -> ParseErrorView {
        match self {
            ParseError::InvalidUrl(m) => ParseErrorView::InvalidUrl(m@),
            ParseError::InvalidScheme(s) => ParseErrorView::InvalidScheme(s@),
            ParseError::InvalidOtpType(t) => ParseErrorView::InvalidOtpType(t@),
            ParseError::MissingSecret => ParseErrorView::MissingSecret,
            ParseError::InvalidParameter(p) => ParseErrorView::InvalidParameter(p@),
        }
    }
}

impl ParseErrorView {
    /// The message of the error.
    pub open spec fn message(self) -> Seq<char> {
        match self {
            ParseErrorView::InvalidUrl(m) => "Invalid URL: "@ + m,
            ParseErrorView::InvalidScheme(s) => "Invalid scheme: "@ + s,
            ParseErrorView::InvalidOtpType(t) => "Invalid OTP type: "@ + t,
            ParseErrorView::MissingSecret => "Missing required secret parameter"@,
            ParseErrorView::InvalidParameter(p) => "Invalid parameter: "@ + p,
        }
    }
}

impl ParseError {
    /// The message of the error.
    pub fn to_string(&self) -> (s: String)
        ensures
            s@ == self@.message(),
    {
        let mut out: Vec<char> = Vec::new();
        match self {
            ParseError::InvalidUrl(m) => {
                append_str(&mut out, "Invalid URL: ");
                append_str(&mut out, m.as_str());
            },
            ParseError::InvalidScheme(s) => {
                append_str(&mut out, "Invalid scheme: ");
                append_str(&mut out, s.as_str());
            },
            ParseError::InvalidOtpType(t) => {
                append_str(&mut out, "Invalid OTP type: ");
                append_str(&mut out, t.as_str());
            },
            ParseError::MissingSecret => {
                append_str(&mut out, "Missing required secret parameter");
            },
            ParseError::InvalidParameter(p) => {
                append_str(&mut out, "Invalid parameter: ");
                append_str(&mut out, p.as_str());
            },
        }
        assert(out@ =~= self@.message());
        from_chars(&out)
    }
}

/// The value of the last pair of `query` under `key`: a later parameter of
/// the same name replaces an earlier one.
pub open spec fn last_value(query: Seq<(Seq<char>, Seq<char>)>, key: Seq<char>) -> Option<
    Seq<char>,
>
    decreases query.len(),
{
    if query.len() == 0 {
        None
    } else if query.last().0 == key {
        Some(query.last().1)
    } else {
        last_value(query.drop_last(), key)
    }
}

/// Looks a parameter up.
pub fn lookup(query: &Vec<(String, String)>, key: &str) -> (r: Option<String>)
    ensures
        text_of(r) == last_value(pairs_of(query@), key@),
{
    let wanted = to_chars(key);
    let ghost pairs = pairs_of(query@);
    let mut i: usize = query.len();
    assert(pairs.subrange(0, i as int) == pairs);
    while i > 0
        invariant
            i <= query.len(),
            wanted@ == key@,
            pairs == pairs_of(query@),
            last_value(pairs, key@) == last_value(pairs.subrange(0, i as int), key@),
        decreases i,
    {
        let ghost head = pairs.subrange(0, i as int);
        assert(head.last() == (query@[i - 1].0@, query@[i - 1].1@));
        assert(head.drop_last() == pairs.subrange(0, i - 1));
        let name = to_chars(query[i - 1].0.as_str());
        if same_chars(&name, &wanted) {
            return Some(query[i - 1].1.clone());
        }
        i -= 1;
    }
    None
}

/// The label, the account name and the issuer that a decoded, non-empty
/// path stands for. A label is split at its first colon into issuer and
/// account, and an empty half counts as absent; without a colon the whole
/// label is the account too.
pub open spec fn label_parts(decoded: Seq<char>) -> (
    Option<Seq<char>>,
    Option<Seq<char>>,
    Option<Seq<char>>,
) {
    if decoded.contains(':') {
        let at = first_index(decoded, ':') as int;
        let issuer = decoded.subrange(0, at);
        let account = decoded.subrange(at + 1, decoded.len() as int);
        (
            Some(decoded),
            if account.len() == 0 {
                None
            } else {
                Some(account)
            },
            if issuer.len() == 0 {
                None
            } else {
                Some(issuer)
            },
        )
    } else {
        (Some(decoded), Some(decoded), None)
    }
}

/// What a path without its leading slash stands for; a path whose escapes
/// do not decode is taken as it is written.
pub open spec fn path_parts(path: Seq<char>) -> (
    Option<Seq<char>>,
    Option<Seq<char>>,
    Option<Seq<char>>,
) {
    if path.len() == 0 {
        (None, None, None)
    } else {
        match percent_decoded(path) {
            Some(decoded) => label_parts(decoded),
            None => label_parts(path),
        }
    }
}

fn some_text(v: &Vec<char>) -> (r: Option<String>)
    ensures
        text_of(r) == if v@.len() == 0 {
            None
        } else {
            Some(v@)
        },
{
    if v.len() == 0 {
        None
    } else {
        Some(from_chars(v))
    }
}

/// The path of a URL without the slash that begins it.
pub open spec fn without_slash(path: Seq<char>) -> Seq<char> {
    if path.len() > 0 && path[0] == '/' {
        path.drop_first()
    } else {
        path
    }
}

/// The digit count that a `digits` parameter gives: a number that fits 32
/// bits, or nothing where the text is no such number.
pub open spec fn digits_read(text: Seq<char>) -> Option<u32> {
    match parsed(text, 0xFFFF_FFFF) {
        Some(n) => Some(n as u32),
        None => None,
    }
}

/// The fields that the parts of a URL give, or the first reason why they
/// give none: the scheme, the host, the secret, the digits, in this order.
pub open spec fn fields_of(parts: UrlPartsView) -> Result<OtpUriView, ParseErrorView> {
    if parts.scheme != "otpauth"@ {
        Err(ParseErrorView::InvalidScheme(parts.scheme))
    } else if parts.host != Some("totp"@) {
        Err(
            ParseErrorView::InvalidOtpType(
                match parts.host {
                    Some(host) => host,
                    None => "missing"@,
                },
            ),
        )
    } else {
        match last_value(parts.query, "secret"@) {
            None => Err(ParseErrorView::MissingSecret),
            Some(secret) => {
                let (label, account_name, label_issuer) = path_parts(without_slash(parts.path));
                let issuer = match last_value(parts.query, "issuer"@) {
                    Some(issuer) => Some(issuer),
                    None => label_issuer,
                };
                let algorithm = last_value(parts.query, "algorithm"@);
                match last_value(parts.query, "digits"@) {
                    None => Ok(
                        OtpUriView { label, issuer, account_name, secret, algorithm, digits: None },
                    ),
                    Some(text) => match digits_read(text) {
                        None => Err(ParseErrorView::InvalidParameter("digits"@)),
                        Some(digits) => Ok(
                            OtpUriView {
                                label,
                                issuer,
                                account_name,
                                secret,
                                algorithm,
                                digits: Some(digits),
                            },
                        ),
                    },
                }
            },
        }
    }
}

/// What reading a URI gives.
pub open spec fn uri_read(uri: Seq<char>) -> Result<OtpUriView, ParseErrorView> {
    match url_split(uri) {
        Err(message) => Err(ParseErrorView::InvalidUrl(message)),
        Ok(parts) => fields_of(parts),
    }
}

impl OtpUri {
    /// Splits a decoded label into label, account name and issuer.
    pub fn split_label(decoded: &str) -> (r: (Option<String>, Option<String>, Option<String>))
        ensures
            (text_of(r.0), text_of(r.1), text_of(r.2)) == label_parts(decoded@),
    {
        let chars = to_chars(decoded);
        match find_char(&chars, ':') {
            Some(at) => {
                let issuer = slice_chars(&chars, 0, at);
                let account = slice_chars(&chars, at + 1, chars.len());
                (Some(from_chars(&chars)), some_text(&account), some_text(&issuer))
            },
            None => (Some(from_chars(&chars)), Some(from_chars(&chars)), None),
        }
    }

    /// Reads the path of a URI, without its leading slash, as label,
    /// account name and issuer.
    pub fn parse_label(path: &str) -> (r: (Option<String>, Option<String>, Option<String>))
        ensures
            (text_of(r.0), text_of(r.1), text_of(r.2)) == path_parts(path@),
    {
        if path.is_empty() {
            return (None, None, None);
        }
        match percent_decode(path) {
            Some(decoded) => OtpUri::split_label(decoded.as_str()),
            None => OtpUri::split_label(path),
        }
    }

    /// The fields that the parts of a URL give.
    pub fn from_parts(parts: &UrlParts) -> (r: Result<OtpUri, ParseError>)
        ensures
            r matches Ok(uri) ==> fields_of(parts@) matches Ok(f) && f == uri@,
            r matches Err(e) ==> fields_of(parts@) matches Err(x) && x == e@,
    {
        let scheme = to_chars(parts.scheme.as_str());
        if !same_chars(&scheme, &to_chars("otpauth")) {
            return Err(ParseError::InvalidScheme(parts.scheme.clone()));
        }
        match &parts.host {
            None => {
                return Err(ParseError::InvalidOtpType("missing".to_owned()));
            },
            Some(host) => {
                if !same_chars(&to_chars(host.as_str()), &to_chars("totp")) {
                    return Err(ParseError::InvalidOtpType(host.clone()));
                }
            },
        }
        let secret = match lookup(&parts.query, "secret") {
            Some(secret) => secret,
            None => {
                return Err(ParseError::MissingSecret);
            },
        };
        let path = to_chars(parts.path.as_str());
        let path = if path.len() > 0 && path[0] == '/' {
            slice_chars(&path, 1, path.len())
        } else {
            path
        };
        let (label, account_name, label_issuer) = OtpUri::parse_label(from_chars(&path).as_str());
        let issuer = match lookup(&parts.query, "issuer") {
            Some(issuer) => Some(issuer),
            None => label_issuer,
        };
        let algorithm = lookup(&parts.query, "algorithm");
        let digits = match lookup(&parts.query, "digits") {
            None => None,
            Some(text) => match parse_decimal(&to_chars(text.as_str()), 0xFFFF_FFFF) {
                Some(n) => Some(n as u32),
                None => {
                    return Err(ParseError::InvalidParameter("digits".to_owned()));
                },
            },
        };
        Ok(OtpUri { label, issuer, account_name, secret, algorithm, digits })
    }

    /// Reads an `otpauth` URI.
    pub fn parse(uri: &str) -> (r: Result<OtpUri, ParseError>)
        ensures
            r matches Ok(fields) ==> uri_read(uri@) matches Ok(f) && f == fields@,
            r matches Err(e) ==> uri_read(uri@) matches Err(x) && x == e@,
    {
        match split_url(uri) {
            Err(message) => Err(ParseError::InvalidUrl(message)),
            Ok(parts) => OtpUri::from_parts(&parts),
        }
    }
}

/// `s` without colons and without the escape `%3A`: the colons go first,
/// then the escapes that are left.
pub open spec fn without_colons(s: Seq<char>) -> Seq<char> {
    without_pattern(without_pattern(s, seq![':']), seq!['%', '3', 'A'])
}

/// A text freed of colons holds none.
pub proof fn lemma_colonless(s: Seq<char>)
    ensures
        !without_colons(s).contains(':'),
{
    let t = without_pattern(s, seq![':']);
    lemma_without_char(s, ':');
    lemma_without_pattern_subset(t, seq!['%', '3', 'A'], ':');
}

/// `s` holds one colon at most.
pub open spec fn at_most_one_colon(s: Seq<char>) -> bool {
    forall|i: int, j: int|
        0 <= i < s.len() && 0 <= j < s.len() && s[i] == ':' && s[j] == ':' ==> i == j
}

/// The label and the issuer under which a display name is written. A name
/// with a colon is split at the first one into issuer and account, each
/// trimmed and freed of colons. Where both are left, the label is the
/// issuer, a colon and the account; where only the issuer is left it is the
/// label too; where no issuer is left the account is the label and there is
/// no issuer. A name without colon is the label, freed of the escape `%3A`.
pub open spec fn name_parts(name: Seq<char>) -> (Seq<char>, Option<Seq<char>>) {
    if name.contains(':') {
        let at = first_index(name, ':') as int;
        let issuer = without_colons(trimmed(name.subrange(0, at)));
        let account = without_colons(trimmed(name.subrange(at + 1, name.len() as int)));
        if issuer.len() == 0 {
            (account, None)
        } else if account.len() == 0 {
            (issuer, Some(issuer))
        } else {
            (issuer + seq![':'] + account, Some(issuer))
        }
    } else {
        (without_colons(name), None)
    }
}

/// The label of a name holds one colon at most. The issuer, where there is
/// one, is not empty, holds no colon, and is the label or what stands in
/// the label before its colon.
pub proof fn lemma_name_parts(name: Seq<char>)
    ensures
        at_most_one_colon(name_parts(name).0),
        name_parts(name).1 matches Some(issuer) ==> issuer.len() > 0 && !issuer.contains(':') && (
        name_parts(name).0 == issuer || (name_parts(name).0.len() > issuer.len() + 1
            && name_parts(name).0.subrange(0, issuer.len() as int) == issuer
            && name_parts(name).0[issuer.len() as int] == ':' && first_index(
            name_parts(name).0,
            ':',
        ) == issuer.len())),
{
    let label = name_parts(name).0;
    if name.contains(':') {
        let at = first_index(name, ':') as int;
        lemma_first_index(name, ':');
        let issuer = without_colons(trimmed(name.subrange(0, at)));
        let account = without_colons(trimmed(name.subrange(at + 1, name.len() as int)));
        lemma_colonless(trimmed(name.subrange(0, at)));
        lemma_colonless(trimmed(name.subrange(at + 1, name.len() as int)));
        if issuer.len() != 0 && account.len() != 0 {
            assert forall|i: int| 0 <= i < label.len() && label[i] == ':' implies i
                == issuer.len() by {
                if i < issuer.len() {
                    assert(issuer[i] == ':');
                } else if i > issuer.len() {
                    assert(account[i - issuer.len() - 1] == ':');
                }
            }
            assert(label.subrange(0, issuer.len() as int) =~= issuer);
            assert forall|i: int| 0 <= i < issuer.len() implies #[trigger] label[i] != ':' by {
                assert(label[i] == issuer[i]);
            }
            lemma_first_index_is(label, ':', issuer.len() as int);
        } else {
            assert forall|i: int| 0 <= i < label.len() implies label[i] != ':' by {}
        }
    } else {
        lemma_colonless(name);
        assert forall|i: int| 0 <= i < label.len() implies label[i] != ':' by {}
    }
}

fn strip_colons(v: &Vec<char>) -> (r: Vec<char>)
    ensures
        r@ == without_colons(v@),
{
    let mut colon: Vec<char> = Vec::new();
    colon.push(':');
    let mut escape: Vec<char> = Vec::new();
    escape.push('%');
    escape.push('3');
    escape.push('A');
    assert(colon@ =~= seq![':']);
    assert(escape@ =~= seq!['%', '3', 'A']);
    remove_pattern(&remove_pattern(v, &colon), &escape)
}

/// Splits a display name into the label and the issuer of its URI. The
/// label holds one colon at most; the issuer, where there is one, is not
/// empty, holds no colon, and is the label or what stands in the label
/// before its colon.
pub fn parse_entry_name(name: &str) -> (r: (String, Option<String>))
    ensures
        (r.0@, text_of(r.1)) == name_parts(name@),
        at_most_one_colon(r.0@),
        r.1 matches Some(issuer) ==> issuer@.len() > 0 && !issuer@.contains(':'),
        r.1 matches Some(issuer) ==> r.0@ == issuer@ || (r.0@.len() > issuer@.len() + 1
            && r.0@.subrange(0, issuer@.len() as int) == issuer@ && r.0@[issuer@.len() as int]
            == ':'),
{
    let chars = to_chars(name);
    let r = match find_char(&chars, ':') {
        Some(at) => {
            let issuer = strip_colons(&trim(&slice_chars(&chars, 0, at)));
            let account = strip_colons(&trim(&slice_chars(&chars, at + 1, chars.len())));
            if issuer.len() == 0 {
                (from_chars(&account), None)
            } else if account.len() == 0 {
                (from_chars(&issuer), Some(from_chars(&issuer)))
            } else {
                let mut label = copy_chars(&issuer);
                label.push(':');
                append_chars(&mut label, &account);
                (from_chars(&label), Some(from_chars(&issuer)))
            }
        },
        None => (from_chars(&strip_colons(&chars)), None),
    };
    proof {
        lemma_name_parts(name@);
        assert(r.0@ == name_parts(name@).0);
        assert(text_of(r.1) == name_parts(name@).1);
    }
    r
}

/// The URI of an entry: the encoded label as the path, then the period of
/// thirty seconds, the digits, the algorithm and the secret, and at last
/// the encoded issuer where the name has one.
pub open spec fn uri_written(e: EntryView) -> Seq<char> {
    let (label, issuer) = name_parts(e.name);
    let head = "otpauth://totp/"@ + percent_encoded(label) + "?"@ + "period=30"@ + "&digits="@
        + decimal(e.totp_config.digits as nat) + "&algorithm="@ + e.totp_config.algorithm.name()
        + "&secret="@ + e.secret;
    match issuer {
        Some(issuer) => head + "&issuer="@ + percent_encoded(issuer),
        None => head,
    }
}

/// The escapes of `text` are no shorter than `text` and decode to it.
pub open spec fn encodes_back(text: Seq<char>) -> bool {
    percent_encoded(text).len() >= text.len() && percent_decoded(percent_encoded(text)) == Some(
        text,
    )
}

/// Writes an entry as an `otpauth` URI. The path that is written decodes to
/// the label again.
pub fn entry_to_otp_uri(entry: &Entry) -> (uri: String)
    ensures
        uri@ == uri_written(entry@),
        encodes_back(name_parts(entry@.name).0),
{
    let (label, issuer) = parse_entry_name(entry.name.as_str());
    let mut out: Vec<char> = Vec::new();
    append_str(&mut out, "otpauth://totp/");
    append_str(&mut out, percent_encode(label.as_str()).as_str());
    append_str(&mut out, "?");
    append_str(&mut out, "period=30");
    append_str(&mut out, "&digits=");
    push_decimal(&mut out, entry.totp_config.digits as u64);
    append_str(&mut out, "&algorithm=");
    append_str(&mut out, entry.totp_config.algorithm.as_str());
    append_str(&mut out, "&secret=");
    append_str(&mut out, entry.secret.as_str());
    match issuer {
        Some(issuer) => {
            append_str(&mut out, "&issuer=");
            append_str(&mut out, percent_encode(issuer.as_str()).as_str());
            assert(out@ =~= uri_written(entry@));
        },
        None => {
            assert(out@ =~= uri_written(entry@));
        },
    }
    from_chars(&out)
}

/// Why the fields of a URI make no entry.
#[derive(Debug, Clone, Copy, PartialEq, Eq, Structural)]
pub enum EntryError {
    /// The digit count is not between 4 and 10; the count found.
    InvalidDigits(u32),
}

impl EntryError {
    /// The message of the error.
    pub open spec fn message(self) -> Seq<char> {
        match self {
            EntryError::InvalidDigits(digits) => "Invalid digits value: "@ + decimal(digits as nat)
                + ", must be between 4 and 10"@,
        }
    }

    /// The message of the error.
    pub fn to_string(&self) -> (s: String)
        ensures
            s@ == self.message(),
    {
        let mut out: Vec<char> = Vec::new();
        match self {
            EntryError::InvalidDigits(digits) => {
                append_str(&mut out, "Invalid digits value: ");
                push_decimal(&mut out, *digits as u64);
                append_str(&mut out, ", must be between 4 and 10");
            },
        }
        assert(out@ =~= self.message());
        from_chars(&out)
    }
}

/// The label has both its halves: text before its first colon, and text
/// after it.
pub open spec fn both_halves(label: Seq<char>) -> bool {
    label.contains(':') && 0 < first_index(label, ':') && first_index(label, ':') + 1 < label.len()
}

/// Whether a label has both its halves.
pub fn has_both_halves(label: &str) -> (r: bool)
    ensures
        r == both_halves(label@),
{
    let chars = to_chars(label);
    match find_char(&chars, ':') {
        Some(at) => 0 < at && at + 1 < chars.len(),
        None => false,
    }
}

impl OtpUriView {
    /// The label, where it has both an issuer and an account.
    pub open spec fn whole_label(self) -> Option<Seq<char>> {
        match self.label {
            Some(label) => if both_halves(label) {
                Some(label)
            } else {
                None
            },
            None => None,
        }
    }

    /// The display name of the entry: the label where it has both an
    /// issuer and an account; else the issuer, else the account name, else
    /// the label, else a fixed name.
    pub open spec fn display_name(self) -> Seq<char> {
        match self.whole_label() {
            Some(label) => label,
            None => match self.issuer {
                Some(issuer) => issuer,
                None => match self.account_name {
                    Some(account) => account,
                    None => match self.label {
                        Some(label) => label,
                        None => "Imported Entry"@,
                    },
                },
            },
        }
    }

    /// The algorithm of the entry: the one named, and SHA-1 where none or
    /// an unknown one is named.
    pub open spec fn chosen_algorithm(self) -> Algorithm {
        match self.algorithm {
            None => Algorithm::Sha1,
            Some(name) => match Algorithm::named(name) {
                Some(algorithm) => algorithm,
                None => Algorithm::Sha1,
            },
        }
    }

    /// The digit count of the entry: six where none is given.
    pub open spec fn chosen_digits(self) -> u32 {
        match self.digits {
            Some(digits) => digits,
            None => 6,
        }
    }

    /// The entry that the fields make under the identifier `id`, with a
    /// tolerance of one window and no code yet; none where the digit count
    /// is not between 4 and 10.
    pub open spec fn entry(self, id: Id) -> Result<EntryView, EntryError> {
        let digits = self.chosen_digits();
        if 4 <= digits <= 10 {
            Ok(
                EntryView {
                    id: Some(id),
                    name: self.display_name(),
                    secret: self.secret,
                    totp: Seq::empty(),
                    totp_config: TOTPConfig { algorithm: self.chosen_algorithm(), digits, skew: 1 },
                },
            )
        } else {
            Err(EntryError::InvalidDigits(digits))
        }
    }
}

/// Makes the entry of the fields of a URI, under the identifier `id`.
pub fn entry_with_id(otp_uri: OtpUri, id: Id) -> (r: Result<Entry, EntryError>)
    ensures
        r matches Ok(e) ==> otp_uri@.entry(id) matches Ok(v) && v == e@,
        r matches Err(e) ==> otp_uri@.entry(id) matches Err(x) && x == e,
{
    let digits = match otp_uri.digits {
        Some(digits) => digits,
        None => 6,
    };
    if digits < 4 || digits > 10 {
        return Err(EntryError::InvalidDigits(digits));
    }
    let algorithm = match &otp_uri.algorithm {
        None => Algorithm::Sha1,
        Some(name) => match Algorithm::from_name(name.as_str()) {
            Some(algorithm) => algorithm,
            None => Algorithm::Sha1,
        },
    };
    let whole = match &otp_uri.label {
        Some(label) => has_both_halves(label.as_str()),
        None => false,
    };
    let name = if whole {
        match otp_uri.label {
            Some(label) => label,
            None => "Imported Entry".to_owned(),
        }
    } else {
        match otp_uri.issuer {
            Some(issuer) => issuer,
            None => match otp_uri.account_name {
                Some(account) => account,
                None => match otp_uri.label {
                    Some(label) => label,
                    None => "Imported Entry".to_owned(),
                },
            },
        }
    };
    Ok(
        Entry {
            id: Some(id),
            name,
            secret: otp_uri.secret,
            totp: String::new(),
            totp_config: TOTPConfig { algorithm, digits, skew: 1 },
        },
    )
}

/// Makes the entry of the fields of a URI, under a new random identifier.
/// It succeeds exactly when the digit count, six by default, is between 4
/// and 10.
pub fn otp_uri_to_entry(otp_uri: OtpUri) -> (r: Result<Entry, EntryError>)
    ensures
        r matches Ok(e) ==> e.id matches Some(id) && otp_uri@.entry(id) matches Ok(v) && v == e@,
        r matches Err(e) ==> !(4 <= otp_uri@.chosen_digits() <= 10) && e
            == EntryError::InvalidDigits(otp_uri@.chosen_digits()),
{
    entry_with_id(otp_uri, Id::fresh())
}

/// The four pairs that every written query begins with.
pub open spec fn query_head(e: EntryView) -> Seq<(Seq<char>, Seq<char>)> {
    seq![
        ("period"@, "30"@),
        ("digits"@, decimal(e.totp_config.digits as nat)),
        ("algorithm"@, e.totp_config.algorithm.name()),
        ("secret"@, e.secret),
    ]
}

/// The query that `entry_to_otp_uri` writes, pair by pair, its values
/// decoded: the four pairs of every query, and the issuer where the name
/// has one.
pub open spec fn query_written(e: EntryView) -> Seq<(Seq<char>, Seq<char>)> {
    match name_parts(e.name).1 {
        Some(issuer) => query_head(e).push(("issuer"@, issuer)),
        None => query_head(e),
    }
}

proof fn lemma_query_head(e: EntryView)
    ensures
        last_value(query_head(e), "secret"@) == Some(e.secret),
        last_value(query_head(e), "issuer"@) == None::<Seq<char>>,
        last_value(query_head(e), "algorithm"@) == Some(e.totp_config.algorithm.name()),
        last_value(query_head(e), "digits"@) == Some(decimal(e.totp_config.digits as nat)),
{
    reveal_strlit("period");
    reveal_strlit("digits");
    reveal_strlit("algorithm");
    reveal_strlit("secret");
    reveal_strlit("issuer");
    let q = query_head(e);
    let q3 = q.drop_last();
    let q2 = q3.drop_last();
    let q1 = q2.drop_last();
    let q0 = q1.drop_last();
    assert(q0.len() == 0);
    assert("secret"@[0] == 's' && "digits"@[0] == 'd' && "algorithm"@[0] == 'a' && "issuer"@[0]
        == 'i' && "period"@[0] == 'p');
    assert(q.len() == 4 && q3.len() == 3 && q2.len() == 2 && q1.len() == 1);
    assert(q.last() == q[3] && q3.last() == q[2] && q2.last() == q[1] && q1.last() == q[0]);
    assert(q[0].0 == "period"@ && q[1].0 == "digits"@ && q[2].0 == "algorithm"@ && q[3].0
        == "secret"@);
    assert(last_value(q, "secret"@) == Some(e.secret));
    assert(last_value(q0, "issuer"@) == None::<Seq<char>>);
    assert(last_value(q1, "issuer"@) == None::<Seq<char>>);
    assert(last_value(q2, "issuer"@) == None::<Seq<char>>);
    assert(last_value(q3, "issuer"@) == None::<Seq<char>>);
    assert(last_value(q, "issuer"@) == None::<Seq<char>>);
    assert(last_value(q3, "algorithm"@) == Some(e.totp_config.algorithm.name()));
    assert(last_value(q, "algorithm"@) == Some(e.totp_config.algorithm.name()));
    assert(last_value(q2, "digits"@) == Some(decimal(e.totp_config.digits as nat)));
    assert(last_value(q3, "digits"@) == Some(decimal(e.totp_config.digits as nat)));
    assert(last_value(q, "digits"@) == Some(decimal(e.totp_config.digits as nat)));
}

proof fn lemma_query_written(e: EntryView)
    ensures
        last_value(query_written(e), "secret"@) == Some(e.secret),
        last_value(query_written(e), "issuer"@) == name_parts(e.name).1,
        last_value(query_written(e), "algorithm"@) == Some(e.totp_config.algorithm.name()),
        last_value(query_written(e), "digits"@) == Some(decimal(e.totp_config.digits as nat)),
{
    lemma_query_head(e);
    reveal_strlit("digits");
    reveal_strlit("algorithm");
    reveal_strlit("secret");
    reveal_strlit("issuer");
    match name_parts(e.name).1 {
        Some(issuer) => {
            let q = query_written(e);
            assert(q.drop_last() =~= query_head(e));
            assert(q.last() == ("issuer"@, issuer));
            assert("secret"@[0] == 's' && "digits"@[0] == 'd' && "algorithm"@[0] == 'a'
                && "issuer"@[0] == 'i');
        },
        None => {},
    }
}

/// Reading back what was written. Take an entry with a name that is not
/// empty and is written as its own label: a name without colon and without
/// the escape `%3A`, or an issuer, a colon and an account with no white
/// space around them and no further colon. Let it have 4 to 10 digits and a
/// tolerance of one window, and let its name's escapes decode to the name,
/// as `entry_to_otp_uri` ensures of every label it writes. If the parts of
/// a URL are those of the entry's URI, that is the scheme `otpauth`, the
/// host `totp`, the path and the query as they were written, then the
/// fields read from them make an entry with the same name, secret and
/// settings. Nothing is said here of how a URL parser takes the written
/// text apart.
pub proof fn lemma_written_parts_read_back(e: EntryView, id: Id, parts: UrlPartsView)
    requires
        e.name.len() > 0,
        name_parts(e.name).0 == e.name,
        4 <= e.totp_config.digits <= 10,
        e.totp_config.skew == 1,
        encodes_back(e.name),
        parts.scheme == "otpauth"@,
        parts.host == Some("totp"@),
        parts.path == seq!['/'] + percent_encoded(e.name),
        parts.query == query_written(e),
    ensures
        fields_of(parts) matches Ok(fields) && fields.entry(id) matches Ok(read) && read.name
            == e.name && read.secret == e.secret && read.totp_config == e.totp_config,
{
    let path = percent_encoded(e.name);
    lemma_query_written(e);
    lemma_name_parts(e.name);
    lemma_first_index(e.name, ':');
    lemma_decimal_round_trip(e.totp_config.digits as nat, 0xFFFF_FFFF);
    lemma_algorithm_name_round_trip(e.totp_config.algorithm);
    assert(without_slash(parts.path) == path);
    assert(path_parts(path) == label_parts(e.name));
    match name_parts(e.name).1 {
        Some(issuer) => {
            // A name with an issuer holds a colon, which the issuer does
            // not: the name is the issuer, a colon and the account.
            assert(e.name.contains(':'));
            assert(e.name != issuer);
            assert(both_halves(e.name));
        },
        None => {
            if e.name.contains(':') {
                let at = first_index(e.name, ':') as int;
                lemma_colonless(trimmed(e.name.subrange(at + 1, e.name.len() as int)));
                assert(false);
            }
            assert(label_parts(e.name) == (Some(e.name), Some(e.name), None::<Seq<char>>));
        },
    }
}

/// The entries of a list as plain values.
pub open spec fn entries_view(entries: Seq<Entry>) -> Seq<EntryView> {
    entries.map_values(|e: Entry| e@)
}

/// The text of a batch: the URI of each entry, each followed by a line
/// feed.
pub open spec fn batch_written(entries: Seq<EntryView>) -> Seq<char>
    decreases entries.len(),
{
    if entries.len() == 0 {
        Seq::empty()
    } else {
        batch_written(entries.drop_last()) + uri_written(entries.last()) + seq!['\n']
    }
}

/// Writes entries as a batch, one URI per line; nothing is written for an
/// empty list.
pub fn entries_to_batch(entries: &Vec<Entry>) -> (r: Option<String>)
    ensures
        r is Some == (entries.len() > 0),
        r matches Some(text) ==> text@ == batch_written(entries_view(entries@)),
{
    if entries.len() == 0 {
        return None;
    }
    let ghost all = entries_view(entries@);
    let mut out: Vec<char> = Vec::new();
    let mut i: usize = 0;
    while i < entries.len()
        invariant
            i <= entries.len(),
            all == entries_view(entries@),
            out@ == batch_written(all.subrange(0, i as int)),
        decreases entries.len() - i,
    {
        let ghost head = all.subrange(0, i + 1);
        assert(head.drop_last() == all.subrange(0, i as int));
        assert(head.last() == entries@[i as int]@);
        let uri = entry_to_otp_uri(&entries[i]);
        append_str(&mut out, uri.as_str());
        out.push('\n');
        assert(out@ =~= batch_written(head));
        i += 1;
    }
    assert(all.subrange(0, entries.len() as int) == all);
    Some(from_chars(&out))
}

/// What a line of a batch holds.
pub enum UriLine {
    /// A blank line, or a comment: a line that begins with `#`.
    Ignored,
    /// A line that is no URI of an entry.
    Malformed,
    /// The fields of an entry.
    Fields(OtpUriView),
}

/// What a line holds, once trimmed. A URI whose digit count makes no entry
/// is malformed like one that does not read.
pub open spec fn uri_line(line: Seq<char>) -> UriLine {
    let text = trimmed(line);
    if text.len() == 0 || text[0] == '#' {
        UriLine::Ignored
    } else {
        match uri_read(text) {
            Err(_) => UriLine::Malformed,
            Ok(fields) => if 4 <= fields.chosen_digits() <= 10 {
                UriLine::Fields(fields)
            } else {
                UriLine::Malformed
            },
        }
    }
}

/// The fields of the entries that the lines hold, in the lines' order.
pub open spec fn fields_read(lines: Seq<Seq<char>>) -> Seq<OtpUriView>
    decreases lines.len(),
{
    if lines.len() == 0 {
        Seq::empty()
    } else {
        match uri_line(lines.last()) {
            UriLine::Fields(f) => fields_read(lines.drop_last()).push(f),
            _ => fields_read(lines.drop_last()),
        }
    }
}

/// The malformed lines, trimmed, in their order.
pub open spec fn uri_lines_refused(lines: Seq<Seq<char>>) -> Seq<Seq<char>>
    decreases lines.len(),
{
    if lines.len() == 0 {
        Seq::empty()
    } else {
        match uri_line(lines.last()) {
            UriLine::Malformed => uri_lines_refused(lines.drop_last()).push(trimmed(lines.last())),
            _ => uri_lines_refused(lines.drop_last()),
        }
    }
}

/// The entry is the one that the fields make, under the identifier that it
/// has.
pub open spec fn holds(entry: EntryView, fields: OtpUriView) -> bool {
    entry.id matches Some(id) && fields.entry(id) == Ok::<EntryView, EntryError>(entry)
}

/// The entries are those of the fields, one for one, each under an
/// identifier of its own.
pub open spec fn made_of(entries: Seq<EntryView>, fields: Seq<OtpUriView>) -> bool {
    &&& entries.len() == fields.len()
    &&& forall|i: int|
        0 <= i < entries.len() ==> holds(#[trigger] entries[i], fields[i])
}

/// What reading a batch gave.
#[derive(Debug)]
pub struct UriBatch {
    /// The entries, in the order of their lines, each with a new random
    /// identifier.
    pub entries: Vec<Entry>,
    /// The lines that were passed over as malformed, for the caller to
    /// report.
    pub refused: Vec<String>,
}

/// The texts of a list of strings.
pub open spec fn strings_view(lines: Seq<String>) -> Seq<Seq<char>> {
    lines.map_values(|line: String| line@)
}

/// Reads a batch: one URI per line. Blank lines and lines that begin with
/// `#` are ignored; a malformed line is passed over and reported, and does
/// not stop the reading.
pub fn batch_to_entries(content: &str) -> (batch: UriBatch)
    ensures
        made_of(entries_view(batch.entries@), fields_read(lines_of(content@))),
        strings_view(batch.refused@) == uri_lines_refused(lines_of(content@)),
{
    let lines = split_lines(&to_chars(content));
    let ghost all = chars_view(lines@);
    let mut entries: Vec<Entry> = Vec::new();
    let mut refused: Vec<String> = Vec::new();
    let mut i: usize = 0;
    assert(fields_read(all.subrange(0, 0)) =~= Seq::<OtpUriView>::empty());
    assert(strings_view(refused@) =~= uri_lines_refused(all.subrange(0, 0)));
    while i < lines.len()
        invariant
            i <= lines.len(),
            all == chars_view(lines@),
            made_of(entries_view(entries@), fields_read(all.subrange(0, i as int))),
            strings_view(refused@) == uri_lines_refused(all.subrange(0, i as int)),
        decreases lines.len() - i,
    {
        let ghost head = all.subrange(0, i + 1);
        let ghost found = entries_view(entries@);
        let ghost passed = strings_view(refused@);
        assert(head.drop_last() == all.subrange(0, i as int));
        assert(head.last() == lines@[i as int]@);
        let text = trim(&lines[i]);
        if text.len() > 0 && text[0] != '#' {
            let uri = from_chars(&text);
            let made = match OtpUri::parse(uri.as_str()) {
                Ok(fields) => match otp_uri_to_entry(fields) {
                    Ok(entry) => Some(entry),
                    Err(_) => None,
                },
                Err(_) => None,
            };
            match made {
                Some(entry) => {
                    entries.push(entry);
                    proof {
                        let now = entries_view(entries@);
                        let fields = fields_read(head);
                        assert(now =~= found.push(entries@.last()@));
                        assert forall|k: int| 0 <= k < now.len() implies holds(
                            #[trigger] now[k],
                            fields[k],
                        ) by {
                            if k < found.len() {
                                assert(now[k] == found[k]);
                            }
                        }
                    }
                },
                None => {
                    refused.push(uri);
                    assert(strings_view(refused@) =~= passed.push(trimmed(head.last())));
                },
            }
        }
        i += 1;
    }
    assert(all.subrange(0, lines.len() as int) == all);
    UriBatch { entries, refused }
}

} // verus!
