//! What the interface says: the verification verdict, row by row, and the
//! short texts built from counts, choices and names.
use vstd::prelude::*;
use crate::model::{CertificationPermission, HardwareToken, PadesLevel, SignatureKind, SignatureReport};
use crate::signing::last_approval;
use crate::text::{chars_of, decimal, decimal_chars, push_chars, push_str, string_from};

verus! {

// -------------------------------------------------------------- counts

/// "1 firma", and "2 firmas" rather than "firma(s)".
pub open spec fn count_text(count: nat, singular: Seq<char>, plural: Seq<char>) -> Seq<char> {
    if count == 1 {
        "1 "@ + singular
    } else {
        decimal(count) + " "@ + plural
    }
}

/// A count with the noun in singular or plural, as it reads.
pub fn describe_count(count: usize, singular: &str, plural: &str) -> (r: String)
    ensures
        r@ == count_text(count as nat, singular@, plural@),
{
    let mut out: Vec<char>;
    if count == 1 {
        out = chars_of("1 ");
        push_str(&mut out, singular);
    } else {
        out = decimal_chars(count as u64);
        push_str(&mut out, " ");
        push_str(&mut out, plural);
    }
    string_from(out.as_slice())
}

/// The status after a search: "Sin resultados", "1 resultado" or "N resultados".
pub open spec fn search_status_text(count: nat) -> Seq<char> {
    if count == 0 {
        "Sin resultados"@
    } else if count == 1 {
        "1 resultado"@
    } else {
        decimal(count) + " resultados"@
    }
}

/// The status shown after a search found `count` results.
pub fn search_status(count: usize) -> (r: String)
    ensures
        r@ == search_status_text(count as nat),
{
    if count == 0 {
        String::from_str("Sin resultados")
    } else if count == 1 {
        String::from_str("1 resultado")
    } else {
        let mut out = decimal_chars(count as u64);
        push_str(&mut out, " resultados");
        string_from(out.as_slice())
    }
}

// ------------------------------------------------------- joined lists

/// The parts written one after another with `sep` between them.
pub open spec fn join(parts: Seq<Seq<char>>, sep: Seq<char>) -> Seq<char>
    decreases parts.len(),
{
    if parts.len() == 0 {
        Seq::<char>::empty()
    } else if parts.len() == 1 {
        parts[0]
    } else {
        join(parts.drop_last(), sep) + sep + parts.last()
    }
}

/// `parts` written with `sep` between them.
pub fn join_parts(parts: &Vec<Vec<char>>, sep: &str) -> (r: Vec<char>)
    ensures
        r@ == join(parts@.map_values(|p: Vec<char>| p@), sep@),
{
    let ghost text = parts@.map_values(|p: Vec<char>| p@);
    let mut out: Vec<char> = Vec::new();
    let mut i: usize = 0;
    while i < parts.len()
        invariant
            i <= parts@.len(),
            text == parts@.map_values(|p: Vec<char>| p@),
            out@ == join(text.subrange(0, i as int), sep@),
        decreases parts@.len() - i,
    {
        proof {
            assert(text.subrange(0, i + 1).drop_last() =~= text.subrange(0, i as int));
            assert(text.subrange(0, i + 1).last() == parts@[i as int]@);
        }
        if i > 0 {
            push_str(&mut out, sep);
        }
        push_chars(&mut out, &parts[i]);
        proof {
            if i == 0 {
                assert(out@ =~= text.subrange(0, 1)[0]);
            }
        }
        i = i + 1;
    }
    assert(text.subrange(0, parts@.len() as int) =~= text);
    out
}

// ------------------------------------------------- verification verdict

/// The number of reports of a kind.
pub open spec fn count_of_kind(reports: Seq<SignatureReport>, kind: SignatureKind) -> nat
    decreases reports.len(),
{
    if reports.len() == 0 {
        0
    } else {
        count_of_kind(reports.drop_last(), kind) + (if reports.last().kind == kind {
            1nat
        } else {
            0nat
        })
    }
}

/// The signer names of the approval signatures, in document order.
pub open spec fn approval_names(reports: Seq<SignatureReport>) -> Seq<Seq<char>>
    decreases reports.len(),
{
    if reports.len() == 0 {
        Seq::<Seq<char>>::empty()
    } else if reports.last().kind == SignatureKind::Approval {
        approval_names(reports.drop_last()).push(reports.last().signer_name@)
    } else {
        approval_names(reports.drop_last())
    }
}

/// The short name of a PAdES level.
pub open spec fn level_word(level: PadesLevel) -> Seq<char> {
    match level {
        PadesLevel::BaselineB => "B-B"@,
        PadesLevel::BaselineT => "B-T"@,
        PadesLevel::BaselineLt => "B-LT"@,
        PadesLevel::BaselineLta => "B-LTA"@,
    }
}

/// The levels of the approval signatures that have one, in document order.
pub open spec fn approval_levels(reports: Seq<SignatureReport>) -> Seq<Seq<char>>
    decreases reports.len(),
{
    if reports.len() == 0 {
        Seq::<Seq<char>>::empty()
    } else if reports.last().kind == SignatureKind::Approval && reports.last().pades_level is Some {
        approval_levels(reports.drop_last()).push(level_word(reports.last().pades_level->0))
    } else {
        approval_levels(reports.drop_last())
    }
}

/// What a certification permission allows, in words.
pub open spec fn permission_words(p: CertificationPermission) -> Seq<char> {
    match p {
        CertificationPermission::NoChanges => "sin cambios"@,
        CertificationPermission::FormFilling => "formularios y firmas"@,
        CertificationPermission::FormFillingAndAnnotations => "formularios, firmas y anotaciones"@,
    }
}

/// The permissions of every certifying signature, in document order.
pub open spec fn certifications(reports: Seq<SignatureReport>) -> Seq<Seq<char>>
    decreases reports.len(),
{
    if reports.len() == 0 {
        Seq::<Seq<char>>::empty()
    } else if reports.last().certification is Some {
        certifications(reports.drop_last()).push(permission_words(reports.last().certification->0))
    } else {
        certifications(reports.drop_last())
    }
}

/// A row has no verdict.
pub const TONE_NEUTRAL: i32 = 0;

/// A row reports something good.
pub const TONE_OK: i32 = 1;

/// A row reports something to be careful about.
pub const TONE_WARNING: i32 = 2;

/// A row reports a failure.
pub const TONE_FAILED: i32 = 3;

/// One line of what the interface says about a document's signatures: its tone, title and detail.
#[derive(Clone, Debug, PartialEq, Eq)]
pub struct CheckRow {
    pub tone: i32,
    pub label: String,
    pub detail: String,
}

pub open spec fn row_view(row: CheckRow) -> (i32, Seq<char>, Seq<char>) {
    (row.tone, row.label@, row.detail@)
}

pub open spec fn all_intact(reports: Seq<SignatureReport>) -> bool {
    forall|i: int| 0 <= i < reports.len() ==> #[trigger] reports[i].cryptographically_intact
}

pub open spec fn all_trusted(reports: Seq<SignatureReport>) -> bool {
    forall|i: int| 0 <= i < reports.len() ==> #[trigger] reports[i].chain_trusted
}

pub open spec fn all_covering(reports: Seq<SignatureReport>) -> bool {
    forall|i: int| 0 <= i < reports.len() ==> #[trigger] reports[i].covers_whole_document
}

/// The sentence after the signer row's counts.
pub open spec fn certification_summary(reports: Seq<SignatureReport>) -> Seq<char> {
    if join(certifications(reports), ", "@).len() == 0 {
        "Sin certificación DocMDP"@
    } else {
        "Certificación DocMDP: "@ + join(certifications(reports), ", "@)
    }
}

/// The detail of the signer row: how many signatures and timestamps, and
/// what certification the document carries.
pub open spec fn signer_detail(reports: Seq<SignatureReport>) -> Seq<char> {
    let timestamps = count_of_kind(reports, SignatureKind::DocumentTimestamp);
    count_text(count_of_kind(reports, SignatureKind::Approval), "firma"@, "firmas"@) + (if timestamps
        == 0 {
        Seq::<char>::empty()
    } else {
        ", "@ + count_text(timestamps, "sello de tiempo"@, "sellos de tiempo"@)
    }) + ". "@ + certification_summary(reports) + "."@
}

/// The rows of the verdict, one per question a reader has: is the document
/// unaltered, does the signature cover all of it, is the certificate
/// trusted, who signed, and (when known) at which level.
pub open spec fn verdict_rows(reports: Seq<SignatureReport>) -> Seq<(i32, Seq<char>, Seq<char>)> {
    let intact = all_intact(reports);
    let covered = all_covering(reports);
    let trusted = all_trusted(reports);
    let names = join(approval_names(reports), ", "@);
    let levels = join(approval_levels(reports), ", "@);
    let rows = seq![
        if intact {
            (TONE_OK, "El documento no se ha alterado"@, "El contenido coincide exactamente con lo que se firmó."@)
        } else {
            (TONE_FAILED, "El documento se modificó después de firmarse"@, "La comprobación criptográfica no cuadra: no te fíes de este PDF."@)
        },
        if covered {
            (TONE_OK, "La firma cubre todo el documento"@, "No hay páginas ni cambios fuera de lo firmado."@)
        } else {
            (TONE_WARNING, "La firma sólo cubre una parte"@, "Se añadió contenido después de firmar; esa parte no está respaldada."@)
        },
        if trusted {
            (TONE_OK, "El certificado es de confianza"@, "La cadena llega hasta una autoridad reconocida por este equipo."@)
        } else {
            (TONE_WARNING, "No podemos confirmar quién emitió el certificado"@, "La firma es válida, pero nadie en este equipo avala la identidad del firmante."@)
        },
        (TONE_NEUTRAL, if names.len() == 0 {
            "Sin firmante identificado"@
        } else {
            "Firmado por "@ + names
        }, signer_detail(reports)),
    ];
    if levels.len() == 0 {
        rows
    } else {
        rows.push((TONE_NEUTRAL, "Nivel de la firma"@, levels))
    }
}

/// The verdict on a document's signatures.
#[derive(Clone, Debug, PartialEq, Eq)]
pub struct VerificationSummary {
    /// Every signature is intact.
    pub success: bool,
    pub checks: Vec<CheckRow>,
}

fn row(tone: i32, label: Vec<char>, detail: Vec<char>) -> (r: CheckRow)
    ensures
        row_view(r) == (tone, label@, detail@),
{
    CheckRow { tone, label: string_from(label.as_slice()), detail: string_from(detail.as_slice()) }
}

/// The verdict, row by row, on the reports of a document that has signatures.
pub fn verification_summary(reports: &Vec<SignatureReport>) -> (r: VerificationSummary)
    ensures
        r.success == all_intact(reports@),
        r.checks@.map_values(|c: CheckRow| row_view(c)) == verdict_rows(reports@),
{
    let mut approvals: usize = 0;
    let mut timestamps: usize = 0;
    let mut intact = true;
    let mut trusted = true;
    let mut covered = true;
    let mut names: Vec<Vec<char>> = Vec::new();
    let mut levels: Vec<Vec<char>> = Vec::new();
    let mut certs: Vec<Vec<char>> = Vec::new();
    let mut i: usize = 0;
    while i < reports.len()
        invariant
            i <= reports@.len(),
            approvals == count_of_kind(reports@.subrange(0, i as int), SignatureKind::Approval),
            timestamps == count_of_kind(reports@.subrange(0, i as int), SignatureKind::DocumentTimestamp),
            approvals <= i,
            timestamps <= i,
            intact == all_intact(reports@.subrange(0, i as int)),
            trusted == all_trusted(reports@.subrange(0, i as int)),
            covered == all_covering(reports@.subrange(0, i as int)),
            names@.map_values(|p: Vec<char>| p@) == approval_names(reports@.subrange(0, i as int)),
            levels@.map_values(|p: Vec<char>| p@) == approval_levels(reports@.subrange(0, i as int)),
            certs@.map_values(|p: Vec<char>| p@) == certifications(reports@.subrange(0, i as int)),
        decreases reports@.len() - i,
    {
        let ghost prefix = reports@.subrange(0, i as int);
        let ghost next = reports@.subrange(0, i + 1);
        proof {
            assert(next.drop_last() =~= prefix);
            assert(next.last() == reports@[i as int]);
        }
        let report = &reports[i];
        if report.kind == SignatureKind::Approval {
            approvals = approvals + 1;
            names.push(chars_of(report.signer_name.as_str()));
            match report.pades_level {
                Some(level) => {
                    let word = match level {
                        PadesLevel::BaselineB => "B-B",
                        PadesLevel::BaselineT => "B-T",
                        PadesLevel::BaselineLt => "B-LT",
                        PadesLevel::BaselineLta => "B-LTA",
                    };
                    levels.push(chars_of(word));
                },
                None => {},
            }
        }
        if report.kind == SignatureKind::DocumentTimestamp {
            timestamps = timestamps + 1;
        }
        match report.certification {
            Some(p) => {
                let words = match p {
                    CertificationPermission::NoChanges => "sin cambios",
                    CertificationPermission::FormFilling => "formularios y firmas",
                    CertificationPermission::FormFillingAndAnnotations => "formularios, firmas y anotaciones",
                };
                certs.push(chars_of(words));
            },
            None => {},
        }
        intact = intact && report.cryptographically_intact;
        trusted = trusted && report.chain_trusted;
        covered = covered && report.covers_whole_document;
        i = i + 1;
        proof {
            assert(names@.map_values(|p: Vec<char>| p@) =~= approval_names(next));
            assert(levels@.map_values(|p: Vec<char>| p@) =~= approval_levels(next));
            assert(certs@.map_values(|p: Vec<char>| p@) =~= certifications(next));
            assert(intact == all_intact(next)) by {
                if intact {
                    assert forall|j: int| 0 <= j < next.len() implies #[trigger] next[j].cryptographically_intact by {
                        if j < prefix.len() {
                            assert(next[j] == prefix[j]);
                        }
                    }
                } else {
                    if !all_intact(prefix) {
                        let j = choose|j: int| 0 <= j < prefix.len() && !#[trigger] prefix[j].cryptographically_intact;
                        assert(next[j] == prefix[j]);
                    }
                }
            }
            assert(trusted == all_trusted(next)) by {
                if trusted {
                    assert forall|j: int| 0 <= j < next.len() implies #[trigger] next[j].chain_trusted by {
                        if j < prefix.len() {
                            assert(next[j] == prefix[j]);
                        }
                    }
                } else {
                    if !all_trusted(prefix) {
                        let j = choose|j: int| 0 <= j < prefix.len() && !#[trigger] prefix[j].chain_trusted;
                        assert(next[j] == prefix[j]);
                    }
                }
            }
            assert(covered == all_covering(next)) by {
                if covered {
                    assert forall|j: int| 0 <= j < next.len() implies #[trigger] next[j].covers_whole_document by {
                        if j < prefix.len() {
                            assert(next[j] == prefix[j]);
                        }
                    }
                } else {
                    if !all_covering(prefix) {
                        let j = choose|j: int| 0 <= j < prefix.len() && !#[trigger] prefix[j].covers_whole_document;
                        assert(next[j] == prefix[j]);
                    }
                }
            }
        }
    }
    proof {
        assert(reports@.subrange(0, reports@.len() as int) =~= reports@);
    }
    let joined_names = join_parts(&names, ", ");
    let joined_levels = join_parts(&levels, ", ");
    let joined_certs = join_parts(&certs, ", ");

    let mut checks: Vec<CheckRow> = Vec::new();
    if intact {
        checks.push(row(TONE_OK, chars_of("El documento no se ha alterado"), chars_of("El contenido coincide exactamente con lo que se firmó.")));
    } else {
        checks.push(row(TONE_FAILED, chars_of("El documento se modificó después de firmarse"), chars_of("La comprobación criptográfica no cuadra: no te fíes de este PDF.")));
    }
    if covered {
        checks.push(row(TONE_OK, chars_of("La firma cubre todo el documento"), chars_of("No hay páginas ni cambios fuera de lo firmado.")));
    } else {
        checks.push(row(TONE_WARNING, chars_of("La firma sólo cubre una parte"), chars_of("Se añadió contenido después de firmar; esa parte no está respaldada.")));
    }
    if trusted {
        checks.push(row(TONE_OK, chars_of("El certificado es de confianza"), chars_of("La cadena llega hasta una autoridad reconocida por este equipo.")));
    } else {
        checks.push(row(TONE_WARNING, chars_of("No podemos confirmar quién emitió el certificado"), chars_of("La firma es válida, pero nadie en este equipo avala la identidad del firmante.")));
    }
    let label = if joined_names.len() == 0 {
        chars_of("Sin firmante identificado")
    } else {
        let mut l = chars_of("Firmado por ");
        push_chars(&mut l, &joined_names);
        l
    };
    let mut detail = chars_of(describe_count(approvals, "firma", "firmas").as_str());
    if timestamps != 0 {
        push_str(&mut detail, ", ");
        push_chars(&mut detail, &chars_of(describe_count(timestamps, "sello de tiempo", "sellos de tiempo").as_str()));
    }
    push_str(&mut detail, ". ");
    if joined_certs.len() == 0 {
        push_str(&mut detail, "Sin certificación DocMDP");
    } else {
        push_str(&mut detail, "Certificación DocMDP: ");
        push_chars(&mut detail, &joined_certs);
    }
    push_str(&mut detail, ".");
    proof {
        assert(joined_names@ == join(approval_names(reports@), ", "@));
        assert(joined_certs@ == join(certifications(reports@), ", "@));
        assert(joined_levels@ == join(approval_levels(reports@), ", "@));
        assert(approvals == count_of_kind(reports@, SignatureKind::Approval));
        assert(detail@ =~= signer_detail(reports@));
    }
    checks.push(row(TONE_NEUTRAL, label, detail));
    if joined_levels.len() != 0 {
        checks.push(row(TONE_NEUTRAL, chars_of("Nivel de la firma"), joined_levels));
    }
    assert(checks@.map_values(|c: CheckRow| row_view(c)) =~= verdict_rows(reports@));
    VerificationSummary { success: intact, checks }
}

// ------------------------------------------------------ signing dialog

/// The level chosen in the signing dialog: 1 is B-T, 2 B-LT, 3 B-LTA and
/// anything else B-B.
pub open spec fn chosen_level(choice: i32) -> PadesLevel {
    if choice == 1 {
        PadesLevel::BaselineT
    } else if choice == 2 {
        PadesLevel::BaselineLt
    } else if choice == 3 {
        PadesLevel::BaselineLta
    } else {
        PadesLevel::BaselineB
    }
}

pub fn level_from_choice(choice: i32) -> (r: PadesLevel)
    ensures
        r == chosen_level(choice),
{
    if choice == 1 {
        PadesLevel::BaselineT
    } else if choice == 2 {
        PadesLevel::BaselineLt
    } else if choice == 3 {
        PadesLevel::BaselineLta
    } else {
        PadesLevel::BaselineB
    }
}

/// The certification chosen in the signing dialog: 1, 2 and 3 certify,
/// anything else signs without certifying.
pub open spec fn chosen_certification(choice: i32) -> Option<CertificationPermission> {
    if choice == 1 {
        Some(CertificationPermission::NoChanges)
    } else if choice == 2 {
        Some(CertificationPermission::FormFilling)
    } else if choice == 3 {
        Some(CertificationPermission::FormFillingAndAnnotations)
    } else {
        None
    }
}

pub fn certification_from_choice(choice: i32) -> (r: Option<CertificationPermission>)
    ensures
        r == chosen_certification(choice),
{
    if choice == 1 {
        Some(CertificationPermission::NoChanges)
    } else if choice == 2 {
        Some(CertificationPermission::FormFilling)
    } else if choice == 3 {
        Some(CertificationPermission::FormFillingAndAnnotations)
    } else {
        None
    }
}

/// The name offered for the signed copy: the original's stem (or
/// "documento"), then "-firmado" when the dialog's certification choice is
/// -1 ("sign only") and "-certificado" otherwise, then ".pdf".
pub open spec fn suggested_name(stem: Option<Seq<char>>, certification_choice: i32) -> Seq<char> {
    (match stem {
        Some(s) => s,
        None => "documento"@,
    }) + (if certification_choice == -1 {
        "-firmado"@
    } else {
        "-certificado"@
    }) + ".pdf"@
}

pub fn suggested_signed_name(stem: Option<String>, certification_choice: i32) -> (r: String)
    ensures
        r@ == suggested_name(crate::text::text_option(stem), certification_choice),
{
    let mut out = match &stem {
        Some(s) => chars_of(s.as_str()),
        None => chars_of("documento"),
    };
    if certification_choice == -1 {
        push_str(&mut out, "-firmado");
    } else {
        push_str(&mut out, "-certificado");
    }
    push_str(&mut out, ".pdf");
    string_from(out.as_slice())
}

/// What the dialog says after a successful signature.
pub open spec fn signed_message(certified: bool, reports: Seq<SignatureReport>, file_name: Option<Seq<char>>) -> Seq<char> {
    (if certified {
        "Certificación DocMDP"@
    } else {
        "Firma"@
    }) + " válida de "@ + (match last_approval(reports) {
        Some(a) => a.signer_name@,
        None => "Firmante"@,
    }) + ". Guardado como "@ + (match file_name {
        Some(n) => n,
        None => "PDF firmado"@,
    }) + "."@
}

pub fn signing_success_message(certified: bool, reports: &Vec<SignatureReport>, file_name: Option<String>) -> (r: String)
    ensures
        r@ == signed_message(certified, reports@, crate::text::text_option(file_name)),
{
    let mut out = if certified {
        chars_of("Certificación DocMDP")
    } else {
        chars_of("Firma")
    };
    push_str(&mut out, " válida de ");
    match crate::signing::last_approval_index(reports) {
        Some(i) => push_str(&mut out, reports[i].signer_name.as_str()),
        None => push_str(&mut out, "Firmante"),
    }
    push_str(&mut out, ". Guardado como ");
    match &file_name {
        Some(n) => push_str(&mut out, n.as_str()),
        None => push_str(&mut out, "PDF firmado"),
    }
    push_str(&mut out, ".");
    string_from(out.as_slice())
}

// ------------------------------------------------------ tokens, updates

/// How a token is listed: "label · serial".
pub fn token_option_label(token: &HardwareToken) -> (r: String)
    ensures
        r@ == token.label@ + " · "@ + token.serial@,
{
    let mut out = chars_of(token.label.as_str());
    push_str(&mut out, " · ");
    push_str(&mut out, token.serial.as_str());
    string_from(out.as_slice())
}

/// The status after a token scan found `count` devices.
pub fn token_scan_status(count: usize) -> (r: String)
    ensures
        r@ == "Encontramos "@ + decimal(count as nat) + " dispositivo(s)."@,
{
    let mut out = chars_of("Encontramos ");
    push_chars(&mut out, &decimal_chars(count as u64));
    push_str(&mut out, " dispositivo(s).");
    string_from(out.as_slice())
}

/// The status announcing a release ready to download.
pub fn update_ready_status(version: &str) -> (r: String)
    ensures
        r@ == "La versión "@ + version@ + " está lista para descargar."@,
{
    let mut out = chars_of("La versión ");
    push_str(&mut out, version);
    push_str(&mut out, " está lista para descargar.");
    string_from(out.as_slice())
}

// ---------------------------------------------------------- page cache

/// A page is far from `center` when more than one page lies between them.
pub open spec fn far_from(i: int, center: int) -> bool {
    i > center + 1 || i + 1 < center
}

/// Which pages to unload: the loaded pages far from `center`, so only the
/// pages around the visible one keep their images in memory.
pub fn pages_to_unload(loaded: &Vec<bool>, center: usize) -> (r: Vec<bool>)
    ensures
        r@.len() == loaded@.len(),
        forall|i: int| 0 <= i < loaded@.len() ==> #[trigger] r@[i] == (loaded@[i] && far_from(i, center as int)),
{
    let mut out: Vec<bool> = Vec::new();
    let mut i: usize = 0;
    while i < loaded.len()
        invariant
            i <= loaded@.len(),
            out@.len() == i,
            forall|j: int| 0 <= j < i ==> #[trigger] out@[j] == (loaded@[j] && far_from(j, center as int)),
        decreases loaded@.len() - i,
    {
        let far = (i as u128) > (center as u128) + 1 || (i as u128) + 1 < (center as u128);
        out.push(loaded[i] && far);
        i = i + 1;
    }
    out
}

/// Which pages to forget after a zoom: every loaded page other than
/// `keep`, whose rendering is stale.
pub fn pages_to_invalidate(loaded: &Vec<bool>, keep: usize) -> (r: Vec<bool>)
    ensures
        r@.len() == loaded@.len(),
        forall|i: int| 0 <= i < loaded@.len() ==> #[trigger] r@[i] == (loaded@[i] && i != keep),
{
    let mut out: Vec<bool> = Vec::new();
    let mut i: usize = 0;
    while i < loaded.len()
        invariant
            i <= loaded@.len(),
            out@.len() == i,
            forall|j: int| 0 <= j < i ==> #[trigger] out@[j] == (loaded@[j] && j != keep),
        decreases loaded@.len() - i,
    {
        out.push(loaded[i] && i != keep);
        i = i + 1;
    }
    out
}

} // verus!
