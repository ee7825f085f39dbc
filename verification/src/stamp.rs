//! The text of a visible signature stamp: who signed, who issued the
//! certificate, when, and the reason and place given.
use vstd::prelude::*;
use der::asn1::{BmpString, Ia5StringRef, PrintableStringRef, TeletexStringRef, Utf8StringRef};
use der::{Decode, Encode};
use crate::text::{
    chars_equal, chars_of, decimal, decimal_chars, push_chars, push_str, string_from, text_option,
    trim, trimmed,
};

verus! {

/// One attribute of a certificate's distinguished name as it is encoded:
/// its OID in dotted form and its value's DER encoding (tag, length and
/// content; `None` if it could not be written out again).
#[derive(Clone, Debug, PartialEq, Eq)]
pub struct EncodedAttribute {
    pub oid: String,
    pub value: Option<Vec<u8>>,
}

/// A certificate's distinguished name as it is encoded: its attributes in
/// encoding order (relative distinguished names one after another) and its
/// RFC 4514 rendering (`CN=Ana Pérez,O=Empresa,C=EC`).
#[derive(Clone, Debug, PartialEq, Eq)]
pub struct EncodedName {
    pub attributes: Vec<EncodedAttribute>,
    pub rendered: String,
}

/// An encoded name's attributes (OID text, DER value) and rendering.
pub type EncodedView = (Seq<(Seq<char>, Option<Seq<u8>>)>, Seq<char>);

pub open spec fn encoded_attribute_view(a: EncodedAttribute) -> (Seq<char>, Option<Seq<u8>>) {
    (
        a.oid@,
        match a.value {
            Some(v) => Some(v@),
            None => None,
        },
    )
}

pub open spec fn encoded_view(n: EncodedName) -> EncodedView {
    (n.attributes@.map_values(|a: EncodedAttribute| encoded_attribute_view(a)), n.rendered@)
}

pub open spec fn encoded_names_view(r: Option<(EncodedName, EncodedName)>) -> Option<(EncodedView, EncodedView)> {
    match r {
        Some((s, i)) => Some((encoded_view(s), encoded_view(i))),
        None => None,
    }
}

/// What `x509_cert` reads from a DER certificate: the subject's and the
/// issuer's names, each attribute's OID in dotted form with its value
/// written out again as DER, and each name rendered as RFC 4514 text; or
/// `None` when the bytes are not a certificate.
pub uninterp spec fn x509_subject_and_issuer(der: Seq<u8>) -> Option<(EncodedView, EncodedView)>;

/// `x509_cert::Certificate::from_der`, with the subject and issuer names
/// converted to plain values: each attribute's `ObjectIdentifier` shown in
/// dotted form, its value re-encoded with `Encode::to_der`, and the name
/// rendered through its `Display`.
#[verifier::external_body]
fn certificate_names(der: &[u8]) -> (r: Option<(EncodedName, EncodedName)>)
    ensures
        encoded_names_view(r) == x509_subject_and_issuer(der@),
{
    let certificate = <x509_cert::Certificate as Decode>::from_der(der).ok()?;
    let parts = |name: &x509_cert::name::Name| EncodedName {
        attributes: name.0.iter().flat_map(|rdn| rdn.0.iter()).map(|a| EncodedAttribute {
            oid: a.oid.to_string(),
            value: a.value.to_der().ok(),
        }).collect(),
        rendered: name.to_string(),
    };
    Some((parts(&certificate.tbs_certificate.subject), parts(&certificate.tbs_certificate.issuer)))
}

/// What `der` reads from a DER value as a UTF8String: its text, or `None`
/// when the value is not one.
pub uninterp spec fn utf8_string_text(value: Seq<u8>) -> Option<Seq<char>>;

/// `<Utf8StringRef as Decode>::from_der`, shown through its `Display`.
#[verifier::external_body]
fn utf8_text(value: &[u8]) -> (r: Option<String>)
    ensures
        text_option(r) == utf8_string_text(value@),
{
    Utf8StringRef::from_der(value).ok().map(|s| s.to_string())
}

/// What `der` reads from a DER value as a PrintableString: its text, or `None`
/// when the value is not one.
pub uninterp spec fn printable_string_text(value: Seq<u8>) -> Option<Seq<char>>;

/// `<PrintableStringRef as Decode>::from_der`, shown through its `Display`.
#[verifier::external_body]
fn printable_text(value: &[u8]) -> (r: Option<String>)
    ensures
        text_option(r) == printable_string_text(value@),
{
    PrintableStringRef::from_der(value).ok().map(|s| s.to_string())
}

/// What `der` reads from a DER value as a IA5String: its text, or `None`
/// when the value is not one.
pub uninterp spec fn ia5_string_text(value: Seq<u8>) -> Option<Seq<char>>;

/// `<Ia5StringRef as Decode>::from_der`, shown through its `Display`.
#[verifier::external_body]
fn ia5_text(value: &[u8]) -> (r: Option<String>)
    ensures
        text_option(r) == ia5_string_text(value@),
{
    Ia5StringRef::from_der(value).ok().map(|s| s.to_string())
}

/// What `der` reads from a DER value as a TeletexString: its text, or `None`
/// when the value is not one.
pub uninterp spec fn teletex_string_text(value: Seq<u8>) -> Option<Seq<char>>;

/// `<TeletexStringRef as Decode>::from_der`, shown through its `Display`.
#[verifier::external_body]
fn teletex_text(value: &[u8]) -> (r: Option<String>)
    ensures
        text_option(r) == teletex_string_text(value@),
{
    TeletexStringRef::from_der(value).ok().map(|s| s.to_string())
}

/// What `der` reads from a DER value as a BMPString: its text, or `None`
/// when the value is not one.
pub uninterp spec fn bmp_string_text(value: Seq<u8>) -> Option<Seq<char>>;

/// `<BmpString as Decode>::from_der`, shown through its `Display`.
#[verifier::external_body]
fn bmp_text(value: &[u8]) -> (r: Option<String>)
    ensures
        text_option(r) == bmp_string_text(value@),
{
    BmpString::from_der(value).ok().map(|s| s.to_string())
}

/// A DER value read as text: the string when the value is a UTF8String,
/// PrintableString, IA5String, TeletexString or BMPString (the string types
/// a distinguished name's values come in), or `None`. Each reading accepts
/// only its own tag, so at most one of them has an answer.
pub open spec fn directory_string_text(value: Seq<u8>) -> Option<Seq<char>> {
    if utf8_string_text(value) is Some {
        utf8_string_text(value)
    } else if printable_string_text(value) is Some {
        printable_string_text(value)
    } else if ia5_string_text(value) is Some {
        ia5_string_text(value)
    } else if teletex_string_text(value) is Some {
        teletex_string_text(value)
    } else {
        bmp_string_text(value)
    }
}

/// A DER value read as text, in whichever of the string types it is.
pub fn directory_text(value: &[u8]) -> (r: Option<String>)
    ensures
        text_option(r) == directory_string_text(value@),
{
    let utf8 = utf8_text(value);
    if utf8.is_some() {
        return utf8;
    }
    let printable = printable_text(value);
    if printable.is_some() {
        return printable;
    }
    let ia5 = ia5_text(value);
    if ia5.is_some() {
        return ia5;
    }
    let teletex = teletex_text(value);
    if teletex.is_some() {
        return teletex;
    }
    bmp_text(value)
}

/// One attribute of a distinguished name: its OID in dotted form and, when
/// its value is one of the string types, that text.
#[derive(Clone, Debug, PartialEq, Eq)]
pub struct NameAttribute {
    pub oid: String,
    pub text: Option<String>,
}

/// A distinguished name as plain values: its attributes in encoding order
/// and its RFC 4514 rendering.
#[derive(Clone, Debug, PartialEq, Eq)]
pub struct NameParts {
    pub attributes: Vec<NameAttribute>,
    pub rendered: String,
}

/// A distinguished name's attributes (OID text, text value) and rendering.
pub type NameView = (Seq<(Seq<char>, Option<Seq<char>>)>, Seq<char>);

pub open spec fn attribute_view(a: NameAttribute) -> (Seq<char>, Option<Seq<char>>) {
    (a.oid@, text_option(a.text))
}

pub open spec fn name_view(n: NameParts) -> NameView {
    (n.attributes@.map_values(|a: NameAttribute| attribute_view(a)), n.rendered@)
}

pub open spec fn names_view(r: Option<(NameParts, NameParts)>) -> Option<(NameView, NameView)> {
    match r {
        Some((s, i)) => Some((name_view(s), name_view(i))),
        None => None,
    }
}

/// An encoded attribute read as text.
pub open spec fn read_attribute(a: (Seq<char>, Option<Seq<u8>>)) -> (Seq<char>, Option<Seq<char>>) {
    (
        a.0,
        match a.1 {
            Some(v) => directory_string_text(v),
            None => None,
        },
    )
}

/// An encoded name with each attribute's value read as text.
pub open spec fn read_name_view(n: EncodedView) -> NameView {
    (n.0.map_values(|a: (Seq<char>, Option<Seq<u8>>)| read_attribute(a)), n.1)
}

/// The subject's and issuer's names of a certificate, read as text.
pub open spec fn read_names(names: Option<(EncodedView, EncodedView)>) -> Option<(NameView, NameView)> {
    match names {
        Some((s, i)) => Some((read_name_view(s), read_name_view(i))),
        None => None,
    }
}

/// A certificate's name with each attribute's value read as text.
pub fn read_name(name: &EncodedName) -> (r: NameParts)
    ensures
        name_view(r) == read_name_view(encoded_view(*name)),
{
    let ghost encoded = encoded_view(*name);
    let mut attributes: Vec<NameAttribute> = Vec::new();
    let mut i: usize = 0;
    while i < name.attributes.len()
        invariant
            i <= name.attributes@.len(),
            encoded == encoded_view(*name),
            attributes@.len() == i,
            forall|j: int| 0 <= j < i ==> #[trigger] attribute_view(attributes@[j]) == read_attribute(encoded.0[j]),
        decreases name.attributes@.len() - i,
    {
        let attribute = &name.attributes[i];
        let text = match &attribute.value {
            Some(v) => directory_text(v.as_slice()),
            None => None,
        };
        attributes.push(NameAttribute { oid: attribute.oid.clone(), text });
        i = i + 1;
    }
    let r = NameParts { attributes, rendered: name.rendered.clone() };
    assert(name_view(r).0 =~= read_name_view(encoded).0);
    r
}

/// The OID of the common name attribute.
pub open spec fn common_name_oid() -> Seq<char> {
    "2.5.4.3"@
}

/// The first common name among the attributes that has text, in whichever
/// string type it was written.
pub open spec fn first_common_name(attributes: Seq<(Seq<char>, Option<Seq<char>>)>) -> Option<Seq<char>>
    decreases attributes.len(),
{
    if attributes.len() == 0 {
        None
    } else if attributes[0].0 == common_name_oid() && attributes[0].1 is Some {
        attributes[0].1
    } else {
        first_common_name(attributes.drop_first())
    }
}

/// How a name is shown on a stamp: its common name, or the whole name
/// when it carries no readable one. People expect to read their name, not
/// `CN=…,O=…,C=…`.
pub open spec fn shown_name(name: NameView) -> Seq<char> {
    match first_common_name(name.0) {
        Some(cn) => cn,
        None => name.1,
    }
}

/// The name a stamp shows for a distinguished name.
pub fn common_name(name: &NameParts) -> (r: String)
    ensures
        r@ == shown_name(name_view(*name)),
{
    let ghost attrs = name.attributes@.map_values(|a: NameAttribute| attribute_view(a));
    let oid = chars_of("2.5.4.3");
    let mut i: usize = 0;
    assert(attrs.subrange(0, attrs.len() as int) =~= attrs);
    while i < name.attributes.len()
        invariant
            i <= name.attributes@.len(),
            attrs == name.attributes@.map_values(|a: NameAttribute| attribute_view(a)),
            oid@ == common_name_oid(),
            first_common_name(attrs) == first_common_name(attrs.subrange(i as int, attrs.len() as int)),
        decreases name.attributes@.len() - i,
    {
        let attribute = &name.attributes[i];
        proof {
            let rest = attrs.subrange(i as int, attrs.len() as int);
            assert(rest[0] == attribute_view(name.attributes@[i as int]));
            assert(rest.drop_first() =~= attrs.subrange(i + 1, attrs.len() as int));
        }
        if chars_equal(&chars_of(attribute.oid.as_str()), &oid) {
            match &attribute.text {
                Some(value) => {
                    return value.clone();
                },
                None => {},
            }
        }
        i = i + 1;
    }
    name.rendered.clone()
}

/// One line of a stamp's text.
#[derive(Clone, Debug, PartialEq, Eq)]
pub struct StampLine {
    pub text: String,
    pub bold: bool,
}

pub open spec fn line_view(l: StampLine) -> (Seq<char>, bool) {
    (l.text@, l.bold)
}

/// `n` with at least two digits (`{:02}`).
pub open spec fn two_digits(n: nat) -> Seq<char> {
    if n < 10 {
        "0"@ + decimal(n)
    } else {
        decimal(n)
    }
}

/// A signed year as `{}` writes it.
pub open spec fn year_text(year: int) -> Seq<char> {
    if year < 0 {
        "-"@ + decimal((-year) as nat)
    } else {
        decimal(year as nat)
    }
}

/// Local date and time as `dd/mm/aaaa hh:mm`, the order people write dates in.
pub open spec fn date_text(day: nat, month: nat, year: int, hour: nat, minute: nat) -> Seq<char> {
    two_digits(day) + "/"@ + two_digits(month) + "/"@ + year_text(year) + " "@ + two_digits(hour) + ":"@
        + two_digits(minute)
}

fn push_two_digits(out: &mut Vec<char>, n: u8)
    ensures
        final(out)@ == old(out)@ + two_digits(n as nat),
{
    if n < 10 {
        push_str(out, "0");
    }
    push_chars(out, &decimal_chars(n as u64));
}

/// The date and time a stamp shows.
pub fn stamp_date(day: u8, month: u8, year: i16, hour: u8, minute: u8) -> (r: String)
    ensures
        r@ == date_text(day as nat, month as nat, year as int, hour as nat, minute as nat),
{
    let mut out: Vec<char> = Vec::new();
    push_two_digits(&mut out, day);
    push_str(&mut out, "/");
    push_two_digits(&mut out, month);
    push_str(&mut out, "/");
    if year < 0 {
        push_str(&mut out, "-");
        let magnitude: u64 = (0i64 - year as i64) as u64;
        push_chars(&mut out, &decimal_chars(magnitude));
    } else {
        push_chars(&mut out, &decimal_chars(year as u64));
    }
    push_str(&mut out, " ");
    push_two_digits(&mut out, hour);
    push_str(&mut out, ":");
    push_two_digits(&mut out, minute);
    string_from(out.as_slice())
}

/// A reason or place is written only when it has more than white space.
pub open spec fn given(text: Option<Seq<char>>) -> bool {
    match text {
        Some(t) => trimmed(t).len() > 0,
        None => false,
    }
}

/// The lines of a stamp: the signer's and issuer's names when the signing
/// certificate can be read (a plain "Firmado digitalmente" otherwise), the
/// date, then the reason and place when given. It never claims the
/// signature is valid: only verifying the document can say that.
pub open spec fn stamp_text(names: Option<(NameView, NameView)>, date: Seq<char>, reason: Option<Seq<char>>, location: Option<Seq<char>>) -> Seq<(Seq<char>, bool)> {
    let head = match names {
        Some((subject, issuer)) => seq![
            ("Firmado por: "@ + shown_name(subject), true),
            ("Emitido por: "@ + shown_name(issuer), false),
        ],
        None => seq![("Firmado digitalmente"@, true)],
    };
    let dated = head.push(("Fecha: "@ + date, false));
    let with_reason = if given(reason) {
        dated.push(("Motivo: "@ + reason->0, false))
    } else {
        dated
    };
    if given(location) {
        with_reason.push(("Ubicación: "@ + location->0, false))
    } else {
        with_reason
    }
}

fn line(text: Vec<char>, bold: bool) -> (r: StampLine)
    ensures
        line_view(r) == (text@, bold),
{
    StampLine { text: string_from(text.as_slice()), bold }
}

fn is_given(text: Option<&str>) -> (r: bool)
    ensures
        r == given(crate::text::str_option(text)),
{
    match text {
        Some(t) => chars_of(trim(t).as_str()).len() > 0,
        None => false,
    }
}

/// The lines a visible signature carries, from the signer's and issuer's
/// names as read from the signing certificate (`None` when it could not be
/// read), the local date and time already written out, and the reason and
/// place given.
pub fn stamp_lines(names: &Option<(NameParts, NameParts)>, date: &str, reason: Option<&str>, location: Option<&str>) -> (r: Vec<StampLine>)
    ensures
        r@.map_values(|l: StampLine| line_view(l)) == stamp_text(
            names_view(*names),
            date@,
            crate::text::str_option(reason),
            crate::text::str_option(location),
        ),
{
    let mut lines: Vec<StampLine> = Vec::new();
    match names {
        Some((subject, issuer)) => {
            let mut signed = chars_of("Firmado por: ");
            push_str(&mut signed, common_name(subject).as_str());
            lines.push(line(signed, true));
            let mut issued = chars_of("Emitido por: ");
            push_str(&mut issued, common_name(issuer).as_str());
            lines.push(line(issued, false));
        },
        None => {
            lines.push(line(chars_of("Firmado digitalmente"), true));
        },
    }
    let mut dated = chars_of("Fecha: ");
    push_str(&mut dated, date);
    lines.push(line(dated, false));
    if is_given(reason) {
        let mut text = chars_of("Motivo: ");
        match reason {
            Some(t) => push_str(&mut text, t),
            None => {},
        }
        lines.push(line(text, false));
    }
    if is_given(location) {
        let mut text = chars_of("Ubicación: ");
        match location {
            Some(t) => push_str(&mut text, t),
            None => {},
        }
        lines.push(line(text, false));
    }
    assert(lines@.map_values(|l: StampLine| line_view(l)) =~= stamp_text(
        names_view(*names),
        date@,
        crate::text::str_option(reason),
        crate::text::str_option(location),
    ));
    lines
}

/// The lines a visible signature carries, from the certificate signing it
/// (DER), the local date and time already written out, and the reason and
/// place given.
pub fn appearance_lines(certificate_der: &[u8], date: &str, reason: Option<&str>, location: Option<&str>) -> (r: Vec<StampLine>)
    ensures
        r@.map_values(|l: StampLine| line_view(l)) == stamp_text(
            read_names(x509_subject_and_issuer(certificate_der@)),
            date@,
            crate::text::str_option(reason),
            crate::text::str_option(location),
        ),
{
    let names = match certificate_names(certificate_der) {
        Some((subject, issuer)) => Some((read_name(&subject), read_name(&issuer))),
        None => None,
    };
    stamp_lines(&names, date, reason, location)
}

} // verus!
