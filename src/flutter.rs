//! Detectors of a Flutter app: `pubspec.yaml`, and the Android and iOS projects beside it.
use vstd::prelude::*;

use crate::classify::string_views;
use crate::detect::ModuleFacts;
use crate::frontend::{current_frontend, frontend_view, FrontendView};
use crate::python::same_shape;
use crate::report::{push_label, FrontendStack, ModuleReport};
use crate::text::{
    ascii_lower, chars_of, ends_with, ends_with_str, find, find_str, lower_chars, slice_chars,
    split, split_chars, starts_with, starts_with_str, strip_prefixes, strip_prefixes_exec,
    strip_suffixes, strip_suffixes_exec, string_of, trim, trim_chars, trim_end, views,
};
use crate::text::eq_str;
use crate::topology::ModuleKind;

verus! {

#[derive(Clone, Copy, Debug, PartialEq, Eq, Structural)]
pub enum PubspecSection {
    Other,
    Environment,
    Dependencies,
    DevDependencies,
}

/// Reading `pubspec.yaml`: the section, the dependency names so far, the SDK constraint.
pub struct PubspecState {
    pub section: PubspecSection,
    pub deps: Seq<Seq<char>>,
    pub sdk: Option<Seq<char>>,
}

/// Every leading and trailing copy of `p` removed.
pub open spec fn trim_matching(s: Seq<char>, p: Seq<char>) -> Seq<char> {
    strip_suffixes(strip_prefixes(s, p), p)
}

pub open spec fn section_of(name: Seq<char>) -> PubspecSection {
    if name == "environment"@ {
        PubspecSection::Environment
    } else if name == "dependencies"@ {
        PubspecSection::Dependencies
    } else if name == "dev_dependencies"@ {
        PubspecSection::DevDependencies
    } else {
        PubspecSection::Other
    }
}

/// One line of `pubspec.yaml`. Indentation is counted in characters.
pub open spec fn pubspec_step(st: PubspecState, line: Seq<char>) -> PubspecState {
    let l = trim_end(line);
    let t = trim(line);
    let indent: int = if l.len() >= t.len() { l.len() - t.len() } else { 0 };
    if t.len() == 0 || starts_with(t, "#"@) {
        st
    } else if indent == 0 && ends_with(t, ":"@) {
        PubspecState { section: section_of(strip_suffixes(t, ":"@)), ..st }
    } else if st.section == PubspecSection::Environment {
        let v = trim(trim_matching(trim_matching(trim(strip_prefixes(t, "sdk:"@)), "\""@), "'"@));
        if st.sdk.is_none() && starts_with(t, "sdk:"@) && v.len() > 0 {
            PubspecState { sdk: Some(v), ..st }
        } else {
            st
        }
    } else if st.section == PubspecSection::Dependencies || st.section == PubspecSection::DevDependencies {
        let k = find(t, ":"@);
        let key = trim(t.subrange(0, k));
        if indent >= 2 && k >= 0 && key.len() > 0 && !starts_with(key, "-"@) {
            PubspecState { deps: st.deps.push(ascii_lower(key)), ..st }
        } else {
            st
        }
    } else {
        st
    }
}

pub open spec fn pubspec_run(lines: Seq<Seq<char>>) -> PubspecState
    decreases lines.len(),
{
    if lines.len() == 0 {
        PubspecState { section: PubspecSection::Other, deps: Seq::empty(), sdk: None }
    } else {
        pubspec_step(pubspec_run(lines.drop_last()), lines.last())
    }
}

/// The dependency names (lower case, in order) and the Dart SDK constraint of a
/// `pubspec.yaml` text.
pub open spec fn pubspec_of(text: Seq<char>) -> PubspecState {
    pubspec_run(split(text, '\n'))
}

fn trim_end_len(s: &Vec<char>) -> (r: usize)
    ensures
        r == trim_end(s@).len(),
{
    let mut j: usize = s.len();
    assert(s@.subrange(0, j as int) =~= s@);
    while j > 0 && crate::text::is_ws_exec(s[j - 1])
        invariant
            j <= s@.len(),
            trim_end(s@) == trim_end(s@.subrange(0, j as int)),
        decreases j,
    {
        assert(s@.subrange(0, j as int).drop_last() =~= s@.subrange(0, j - 1));
        j -= 1;
    }
    j
}

pub fn trim_matching_exec(s: &Vec<char>, p: &str) -> (r: Vec<char>)
    ensures
        r@ == trim_matching(s@, p@),
{
    let q = chars_of(p);
    strip_suffixes_exec(&strip_prefixes_exec(s, &q), &q)
}

fn section_exec(name: &Vec<char>) -> (r: PubspecSection)
    ensures
        r == section_of(name@),
{
    if crate::text::eq_str(name, "environment") {
        PubspecSection::Environment
    } else if crate::text::eq_str(name, "dependencies") {
        PubspecSection::Dependencies
    } else if crate::text::eq_str(name, "dev_dependencies") {
        PubspecSection::DevDependencies
    } else {
        PubspecSection::Other
    }
}

/// The dependency names and the Dart SDK constraint of a `pubspec.yaml` text.
pub struct Pubspec {
    pub deps: Vec<String>,
    pub sdk: Option<String>,
}

/// Reads the `environment`, `dependencies` and `dev_dependencies` sections of a
/// `pubspec.yaml` text.
pub fn parse_pubspec(text: &str) -> (r: Pubspec)
    ensures
        string_views(r.deps@) == pubspec_of(text@).deps,
        crate::report::opt_view(r.sdk) == pubspec_of(text@).sdk,
{
    let lines = split_chars(&chars_of(text), '\n');
    let ghost lv = views(lines@);
    let mut section = PubspecSection::Other;
    let mut deps: Vec<String> = Vec::new();
    let mut sdk: Option<String> = None;
    let mut i: usize = 0;
    while i < lines.len()
        invariant
            i <= lines@.len(),
            lv == views(lines@),
            lv == split(text@, '\n'),
            ({
                let st = pubspec_run(lv.subrange(0, i as int));
                &&& section == st.section
                &&& string_views(deps@) == st.deps
                &&& crate::report::opt_view(sdk) == st.sdk
            }),
        decreases lines@.len() - i,
    {
        assert(lv.subrange(0, i + 1).drop_last() =~= lv.subrange(0, i as int));
        assert(lv.subrange(0, i + 1).last() == lines@[i as int]@);
        let line = &lines[i];
        let t = trim_chars(line);
        let l = trim_end_len(line);
        let indent = l.saturating_sub(t.len());
        if t.len() == 0 || starts_with_str(&t, "#") {
        } else if indent == 0 && ends_with_str(&t, ":") {
            section = section_exec(&strip_suffixes_exec(&t, &chars_of(":")));
        } else if section == PubspecSection::Environment {
            let v = trim_chars(&trim_matching_exec(&trim_matching_exec(&trim_chars(&strip_prefixes_exec(&t, &chars_of("sdk:"))), "\""), "'"));
            if sdk.is_none() && starts_with_str(&t, "sdk:") && v.len() > 0 {
                sdk = Some(string_of(&v));
            }
        } else if section == PubspecSection::Dependencies || section == PubspecSection::DevDependencies {
            match find_str(&t, ":") {
                Some(k) => {
                    let key = trim_chars(&slice_chars(&t, 0, k));
                    if indent >= 2 && key.len() > 0 && !starts_with_str(&key, "-") {
                        let ghost before = deps@;
                        deps.push(string_of(&lower_chars(&key)));
                        assert(string_views(deps@) =~= string_views(before).push(ascii_lower(key@)));
                    }
                },
                None => {},
            }
        }
        i += 1;
    }
    assert(lv.subrange(0, lv.len() as int) =~= lv);
    Pubspec { deps, sdk }
}

/// A dependency key as the Flutter rules compare it: trimmed, lower case, `-` read as `_`.
pub open spec fn flutter_key(d: Seq<char>) -> Seq<char> {
    ascii_lower(trim(d)).map_values(|c: char| if c == '-' { '_' } else { c })
}

/// The label a Flutter dependency key stands for, if any.
pub open spec fn flutter_label(n: Seq<char>) -> Option<Seq<char>> {
    if n == "provider"@ {
        Some("Provider"@)
    } else if n == "flutter_riverpod"@ || n == "riverpod"@ {
        Some("Riverpod"@)
    } else if n == "flutter_bloc"@ || n == "bloc"@ {
        Some("Bloc"@)
    } else if n == "get"@ {
        Some("GetX"@)
    } else if n == "isar"@ {
        Some("Isar"@)
    } else if n == "hive"@ {
        Some("Hive"@)
    } else if n == "sqflite"@ {
        Some("Sqflite"@)
    } else if n == "shared_preferences"@ {
        Some("SharedPreferences"@)
    } else if n == "dio"@ {
        Some("Dio"@)
    } else if n == "http"@ {
        Some("HTTP"@)
    } else if n == "go_router"@ {
        Some("GoRouter"@)
    } else if n == "auto_route"@ {
        Some("AutoRoute"@)
    } else {
        None
    }
}

/// The labels of the dependencies, in order.
pub open spec fn flutter_labels(ds: Seq<Seq<char>>) -> Seq<Seq<char>>
    decreases ds.len(),
{
    if ds.len() == 0 {
        Seq::empty()
    } else {
        let rest = flutter_labels(ds.drop_last());
        match flutter_label(flutter_key(ds.last())) {
            Some(l) => rest.push(l),
            None => rest,
        }
    }
}

/// The state-management library the labels name, by precedence: Riverpod, Bloc, Provider,
/// GetX.
pub open spec fn flutter_store(labels: Seq<Seq<char>>) -> Option<Seq<char>> {
    if labels.contains("Riverpod"@) {
        Some("Riverpod"@)
    } else if labels.contains("Bloc"@) {
        Some("Bloc"@)
    } else if labels.contains("Provider"@) {
        Some("Provider"@)
    } else if labels.contains("GetX"@) {
        Some("GetX"@)
    } else {
        None
    }
}

fn flutter_key_exec(d: &String) -> (r: Vec<char>)
    ensures
        r@ == flutter_key(d@),
{
    let l = lower_chars(&trim_chars(&chars_of(d.as_str())));
    let mut out: Vec<char> = Vec::new();
    let mut i: usize = 0;
    while i < l.len()
        invariant
            i <= l@.len(),
            out@ == l@.subrange(0, i as int).map_values(|c: char| if c == '-' { '_' } else { c }),
        decreases l@.len() - i,
    {
        out.push(if l[i] == '-' { '_' } else { l[i] });
        i += 1;
        assert(out@ =~= l@.subrange(0, i as int).map_values(|c: char| if c == '-' { '_' } else { c }));
    }
    assert(l@.subrange(0, l@.len() as int) =~= l@);
    out
}

fn flutter_label_exec(n: &Vec<char>) -> (r: Option<&'static str>)
    ensures
        match (r, flutter_label(n@)) {
            (Some(a), Some(b)) => a@ == b,
            (None, None) => true,
            _ => false,
        },
{
    if eq_str(n, "provider") {
        Some("Provider")
    } else if eq_str(n, "flutter_riverpod") || eq_str(n, "riverpod") {
        Some("Riverpod")
    } else if eq_str(n, "flutter_bloc") || eq_str(n, "bloc") {
        Some("Bloc")
    } else if eq_str(n, "get") {
        Some("GetX")
    } else if eq_str(n, "isar") {
        Some("Isar")
    } else if eq_str(n, "hive") {
        Some("Hive")
    } else if eq_str(n, "sqflite") {
        Some("Sqflite")
    } else if eq_str(n, "shared_preferences") {
        Some("SharedPreferences")
    } else if eq_str(n, "dio") {
        Some("Dio")
    } else if eq_str(n, "http") {
        Some("HTTP")
    } else if eq_str(n, "go_router") {
        Some("GoRouter")
    } else if eq_str(n, "auto_route") {
        Some("AutoRoute")
    } else {
        None
    }
}

/// The labels of the given dependency names.
pub fn flutter_dependency_labels(deps: &Vec<String>) -> (r: Vec<String>)
    ensures
        string_views(r@) == flutter_labels(string_views(deps@)),
{
    let ghost dv = string_views(deps@);
    let mut out: Vec<String> = Vec::new();
    let mut i: usize = 0;
    while i < deps.len()
        invariant
            i <= deps@.len(),
            dv == string_views(deps@),
            string_views(out@) == flutter_labels(dv.subrange(0, i as int)),
        decreases deps@.len() - i,
    {
        assert(dv.subrange(0, i + 1).drop_last() =~= dv.subrange(0, i as int));
        assert(dv.subrange(0, i + 1).last() == deps@[i as int]@);
        let n = flutter_key_exec(&deps[i]);
        match flutter_label_exec(&n) {
            Some(l) => push_label(&mut out, l),
            None => {},
        }
        i += 1;
    }
    assert(dv.subrange(0, dv.len() as int) =~= dv);
    out
}

fn has_label(v: &Vec<String>, s: &str) -> (r: bool)
    ensures
        r == string_views(v@).contains(s@),
{
    let ghost sv = string_views(v@);
    let mut i: usize = 0;
    while i < v.len()
        invariant
            i <= v@.len(),
            sv == string_views(v@),
            forall|j: int| 0 <= j < i ==> sv[j] != s@,
        decreases v@.len() - i,
    {
        if crate::text::eq_str(&chars_of(v[i].as_str()), s) {
            assert(sv[i as int] == s@);
            return true;
        }
        i += 1;
    }
    false
}

/// What the Flutter detector leaves on the frontend.
pub open spec fn flutter_frontend(f: FrontendView, labels: Seq<Seq<char>>) -> FrontendView {
    let store = flutter_store(labels);
    FrontendView {
        builder: if f.builder == "Unknown"@ { "Flutter"@ } else { f.builder },
        store: if f.store == "None"@ && store.is_some() { store.unwrap() } else { f.store },
        ..f
    }
}

/// What `detect_flutter` guarantees, from the report before (`o`) to the report after (`n`).
pub open spec fn flutter_post(facts: &ModuleFacts, o: ModuleReport, n: ModuleReport, r: Result<(), String>) -> bool {
    &&& (same_shape(&n, &o))
    &&& (n.backend == o.backend)
    &&& (n.warnings == o.warnings)
    &&& (facts.kind != ModuleKind::Frontend ==> r.is_ok() && n == o)
    &&& (facts.kind == ModuleKind::Frontend ==> match facts.pubspec {
            Err(e) => r == Err::<(), String>(e) && n == o,
            Ok(None) => r.is_ok() && n == o,
            Ok(Some(text)) => {
                let p = pubspec_of(text@);
                let sdk_labels = match p.sdk {
                    Some(v) => seq!["Dart SDK "@ + v],
                    None => Seq::empty(),
                };
                let labels = flutter_labels(p.deps);
                &&& r.is_ok()
                &&& if p.deps.contains("flutter"@) {
                    &&& string_views(n.frameworks@) == string_views(o.frameworks@) + seq![
                        "Flutter"@,
                        "Mobile / Cross-platform"@,
                    ]
                    &&& n.frontend.is_some()
                    &&& frontend_view(n.frontend.unwrap()) == flutter_frontend(
                        current_frontend(&o),
                        labels,
                    )
                    &&& string_views(n.deps@) == string_views(o.deps@) + sdk_labels + labels
                } else {
                    &&& n.frameworks == o.frameworks
                    &&& n.frontend == o.frontend
                    &&& string_views(n.deps@) == string_views(o.deps@) + sdk_labels
                }
            },
        })
}

/// A frontend module with a `pubspec.yaml` naming `flutter`: the Flutter frameworks, the
/// builder, the state-management store and the known packages; the Dart SDK constraint
/// is listed whenever it is given.
pub fn detect_flutter(facts: &ModuleFacts, report: &mut ModuleReport) -> (r: Result<(), String>)
    ensures
        flutter_post(facts, *old(report), *final(report), r),
{
    if facts.kind != ModuleKind::Frontend {
        return Ok(());
    }
    let text = match &facts.pubspec {
        Err(e) => return Err(e.clone()),
        Ok(None) => return Ok(()),
        Ok(Some(t)) => t,
    };
    let p = parse_pubspec(text.as_str());
    let ghost deps0 = string_views(report.deps@);
    match &p.sdk {
        Some(v) => {
            let mut label = String::from_str("Dart SDK ");
            label.append(v.as_str());
            let ghost before = report.deps@;
            report.deps.push(label);
            assert(string_views(report.deps@) =~= string_views(before).push("Dart SDK "@ + v@));
        },
        None => {},
    }
    let ghost deps1 = string_views(report.deps@);
    assert(deps1 =~= deps0 + match pubspec_of(text@).sdk {
        Some(v) => seq!["Dart SDK "@ + v],
        None => Seq::<Seq<char>>::empty(),
    });
    if !has_label(&p.deps, "flutter") {
        return Ok(());
    }
    let ghost fw0 = string_views(report.frameworks@);
    push_label(&mut report.frameworks, "Flutter");
    push_label(&mut report.frameworks, "Mobile / Cross-platform");
    assert(string_views(report.frameworks@) =~= fw0 + seq!["Flutter"@, "Mobile / Cross-platform"@]);
    let mut f = crate::frontend::frontend_or_unknown(report);
    if crate::text::eq_str(&chars_of(f.builder.as_str()), "Unknown") {
        f.builder = String::from_str("Flutter");
    }
    let labels = flutter_dependency_labels(&p.deps);
    if crate::text::eq_str(&chars_of(f.store.as_str()), "None") {
        if has_label(&labels, "Riverpod") {
            f.store = String::from_str("Riverpod");
        } else if has_label(&labels, "Bloc") {
            f.store = String::from_str("Bloc");
        } else if has_label(&labels, "Provider") {
            f.store = String::from_str("Provider");
        } else if has_label(&labels, "GetX") {
            f.store = String::from_str("GetX");
        }
    }
    let mut k: usize = 0;
    while k < labels.len()
        invariant
            k <= labels@.len(),
            same_shape(&*report, &*old(report)),
            report.backend == old(report).backend,
            report.warnings == old(report).warnings,
            report.frontend == old(report).frontend,
            string_views(report.frameworks@) == fw0 + seq!["Flutter"@, "Mobile / Cross-platform"@],
            string_views(report.deps@) == deps1 + string_views(labels@).subrange(0, k as int),
        decreases labels@.len() - k,
    {
        let ghost before = report.deps@;
        report.deps.push(labels[k].clone());
        assert(string_views(report.deps@) =~= string_views(before).push(labels@[k as int]@));
        k += 1;
        assert(string_views(labels@).subrange(0, k as int) =~= string_views(labels@).subrange(0, k - 1).push(
            labels@[k - 1]@,
        ));
    }
    assert(string_views(labels@).subrange(0, k as int) =~= string_views(labels@));
    report.frontend = Some(f);
    Ok(())
}

pub open spec fn is_digit(c: char) -> bool {
    '0' <= c && c <= '9'
}

pub open spec fn digit_value(c: char) -> nat {
    ((c as u32) - ('0' as u32)) as nat
}

/// The leading run of digits of `s`.
pub open spec fn take_digits(s: Seq<char>) -> Seq<char>
    decreases s.len(),
{
    if s.len() > 0 && is_digit(s[0]) {
        seq![s[0]] + take_digits(s.drop_first())
    } else {
        Seq::empty()
    }
}

/// The first run of digits of `s` (empty when there is none).
pub open spec fn first_digits(s: Seq<char>) -> Seq<char>
    decreases s.len(),
{
    if s.len() == 0 {
        Seq::empty()
    } else if is_digit(s[0]) {
        take_digits(s)
    } else {
        first_digits(s.drop_first())
    }
}

/// The number a run of digits spells.
pub open spec fn digits_value(ds: Seq<char>) -> nat
    decreases ds.len(),
{
    if ds.len() == 0 {
        0
    } else {
        digits_value(ds.drop_last()) * 10 + digit_value(ds.last())
    }
}

/// The first whole number in `s`, when it fits in a `u32`.
pub open spec fn first_int(s: Seq<char>) -> Option<u32> {
    let ds = first_digits(s);
    if ds.len() == 0 || digits_value(ds) > u32::MAX {
        None
    } else {
        Some(digits_value(ds) as u32)
    }
}

proof fn lemma_take_digits_prefix(s: Seq<char>, i: int)
    requires
        0 <= i <= s.len(),
        forall|j: int| 0 <= j < i ==> is_digit(s[j]),
        i == s.len() || !is_digit(s[i]),
    ensures
        take_digits(s) == s.subrange(0, i),
    decreases i,
{
    if i > 0 {
        lemma_take_digits_prefix(s.drop_first(), i - 1);
        assert(seq![s[0]] + s.drop_first().subrange(0, i - 1) =~= s.subrange(0, i));
    } else {
        assert(s.subrange(0, 0) =~= Seq::<char>::empty());
    }
}

proof fn lemma_first_digits_skip(s: Seq<char>, i: int)
    requires
        0 <= i <= s.len(),
        forall|j: int| 0 <= j < i ==> !is_digit(s[j]),
    ensures
        first_digits(s) == first_digits(s.subrange(i, s.len() as int)),
    decreases i,
{
    if i > 0 {
        lemma_first_digits_skip(s.drop_first(), i - 1);
        assert(s.drop_first().subrange(i - 1, s.drop_first().len() as int) =~= s.subrange(i, s.len() as int));
    } else {
        assert(s.subrange(0, s.len() as int) =~= s);
    }
}

/// The first whole number in `s`, when it fits in a `u32`.
pub fn extract_first_int(s: &Vec<char>) -> (r: Option<u32>)
    ensures
        r == first_int(s@),
{
    let n = s.len();
    let mut i: usize = 0;
    while i < n && !('0' <= s[i] && s[i] <= '9')
        invariant
            n == s@.len(),
            i <= n,
            forall|j: int| 0 <= j < i ==> !is_digit(s@[j]),
        decreases n - i,
    {
        i += 1;
    }
    proof {
        lemma_first_digits_skip(s@, i as int);
    }
    let start = i;
    let mut value: u64 = 0;
    let mut big = false;
    while i < n && '0' <= s[i] && s[i] <= '9'
        invariant
            n == s@.len(),
            start <= i <= n,
            forall|j: int| start <= j < i ==> is_digit(s@[j]),
            !big ==> value == digits_value(s@.subrange(start as int, i as int)),
            !big ==> value <= u32::MAX,
            big ==> digits_value(s@.subrange(start as int, i as int)) > u32::MAX,
        decreases n - i,
    {
        let ghost prev = s@.subrange(start as int, i as int);
        let d = (s[i] as u32 - '0' as u32) as u64;
        assert(s@.subrange(start as int, i + 1).drop_last() =~= prev);
        if !big {
            value = value * 10 + d;
            if value > 0xFFFF_FFFF {
                big = true;
            }
        } else {
            assert(digits_value(s@.subrange(start as int, i + 1)) >= digits_value(prev) * 10);
        }
        i += 1;
    }
    proof {
        let t = s@.subrange(start as int, n as int);
        lemma_take_digits_prefix(t, i - start);
        assert(t.subrange(0, i - start) =~= s@.subrange(start as int, i as int));
        if start < n {
            assert(is_digit(t[0]) == is_digit(s@[start as int]));
        } else {
            assert(t.len() == 0);
        }
    }
    if i == start || big {
        None
    } else {
        Some(value as u32)
    }
}

pub open spec fn digit_char(d: nat) -> char {
    if d == 0 { '0' } else if d == 1 { '1' } else if d == 2 { '2' } else if d == 3 { '3' } else if d == 4 {
        '4'
    } else if d == 5 { '5' } else if d == 6 { '6' } else if d == 7 { '7' } else if d == 8 { '8' } else { '9' }
}

/// The decimal digits of `n`.
pub open spec fn decimal(n: nat) -> Seq<char>
    decreases n,
{
    if n < 10 {
        seq![digit_char(n)]
    } else {
        decimal(n / 10).push(digit_char(n % 10))
    }
}

fn digit_char_exec(d: u32) -> (c: char)
    requires
        d < 10,
    ensures
        c == digit_char(d as nat),
{
    if d == 0 { '0' } else if d == 1 { '1' } else if d == 2 { '2' } else if d == 3 { '3' } else if d == 4 {
        '4'
    } else if d == 5 { '5' } else if d == 6 { '6' } else if d == 7 { '7' } else if d == 8 { '8' } else { '9' }
}

/// The decimal text of `n`.
pub fn decimal_string(n: u32) -> (r: String)
    ensures
        r@ == decimal(n as nat),
{
    let mut out: Vec<char> = Vec::new();
    let mut q: u32 = n;
    while q >= 10
        invariant
            decimal(n as nat) == decimal(q as nat) + out@,
        decreases q,
    {
        let c = digit_char_exec(q % 10);
        let ghost before = out@;
        out.insert(0, c);
        assert(out@ =~= seq![c] + before);
        assert(decimal(q as nat) == decimal((q / 10) as nat).push(c));
        assert(decimal((q / 10) as nat).push(c) + before =~= decimal((q / 10) as nat) + out@);
        q = q / 10;
    }
    let c = digit_char_exec(q);
    let ghost before = out@;
    out.insert(0, c);
    assert(out@ =~= seq![c] + before);
    assert(decimal(q as nat) =~= seq![c]);
    string_of(&out)
}

/// The minimum and target SDK levels found in the first two hundred lines of an Android
/// build file.
pub struct GradleScan {
    pub min_sdk: Option<u32>,
    pub target_sdk: Option<u32>,
}

/// The number after `long`, else after `short`, on a line.
pub open spec fn sdk_on_line(line: Seq<char>, long: Seq<char>, short: Seq<char>) -> Option<u32> {
    let i = find(line, long);
    let j = find(line, short);
    if i >= 0 {
        first_int(line.subrange(i + long.len(), line.len() as int))
    } else if j >= 0 {
        first_int(line.subrange(j + short.len(), line.len() as int))
    } else {
        None
    }
}

pub open spec fn gradle_step(st: (Option<u32>, Option<u32>), line: Seq<char>) -> (Option<u32>, Option<u32>) {
    (
        if st.0.is_none() { sdk_on_line(line, "minSdkVersion"@, "minSdk"@) } else { st.0 },
        if st.1.is_none() { sdk_on_line(line, "targetSdkVersion"@, "targetSdk"@) } else { st.1 },
    )
}

pub open spec fn gradle_run(lines: Seq<Seq<char>>) -> (Option<u32>, Option<u32>)
    decreases lines.len(),
{
    if lines.len() == 0 {
        (None, None)
    } else {
        gradle_step(gradle_run(lines.drop_last()), lines.last())
    }
}

/// The SDK levels of a build file: its first two hundred lines, read in order, each level
/// taken from the first line that gives it.
pub open spec fn gradle_sdks(text: Seq<char>) -> (Option<u32>, Option<u32>) {
    let lines = split(text, '\n');
    gradle_run(lines.subrange(0, if lines.len() < 200 { lines.len() as int } else { 200 }))
}

fn sdk_on_line_exec(line: &Vec<char>, long: &str, short: &str) -> (r: Option<u32>)
    ensures
        r == sdk_on_line(line@, long@, short@),
{
    let lc = chars_of(long);
    let sc = chars_of(short);
    let n = line.len();
    match crate::text::find_exec(line, &lc) {
        Some(i) => extract_first_int(&slice_chars(line, i + lc.len(), n)),
        None => match crate::text::find_exec(line, &sc) {
            Some(j) => extract_first_int(&slice_chars(line, j + sc.len(), n)),
            None => None,
        },
    }
}

/// Reads the SDK levels of an Android build file.
pub fn extract_gradle_sdk_versions(text: &str) -> (r: GradleScan)
    ensures
        (r.min_sdk, r.target_sdk) == gradle_sdks(text@),
{
    let lines = split_chars(&chars_of(text), '\n');
    let ghost lv = views(lines@);
    let limit: usize = if lines.len() < 200 { lines.len() } else { 200 };
    let mut min_sdk: Option<u32> = None;
    let mut target_sdk: Option<u32> = None;
    let mut i: usize = 0;
    while i < limit
        invariant
            i <= limit <= lines@.len(),
            limit == (if lines@.len() < 200 { lines@.len() as int } else { 200 }),
            lv == views(lines@),
            lv == split(text@, '\n'),
            (min_sdk, target_sdk) == gradle_run(lv.subrange(0, i as int)),
        decreases limit - i,
    {
        assert(lv.subrange(0, i + 1).drop_last() =~= lv.subrange(0, i as int));
        assert(lv.subrange(0, i + 1).last() == lines@[i as int]@);
        if min_sdk.is_none() {
            min_sdk = sdk_on_line_exec(&lines[i], "minSdkVersion", "minSdk");
        }
        if target_sdk.is_none() {
            target_sdk = sdk_on_line_exec(&lines[i], "targetSdkVersion", "targetSdk");
        }
        i += 1;
    }
    GradleScan { min_sdk, target_sdk }
}

pub open spec fn has_pubspec(facts: &ModuleFacts) -> bool {
    facts.pubspec != Ok::<Option<String>, String>(None)
}

pub open spec fn sdk_label(prefix: Seq<char>, v: Option<u32>) -> Seq<Seq<char>> {
    match v {
        Some(n) => seq![prefix + decimal(n as nat)],
        None => Seq::empty(),
    }
}

fn push_sdk(deps: &mut Vec<String>, prefix: &str, v: Option<u32>)
    ensures
        string_views(final(deps)@) == string_views(old(deps)@) + sdk_label(prefix@, v),
{
    let ghost d0 = string_views(deps@);
    match v {
        Some(n) => {
            let mut label = String::from_str(prefix);
            let digits = decimal_string(n);
            label.append(digits.as_str());
            deps.push(label);
            assert(string_views(deps@) =~= d0 + sdk_label(prefix@, v));
        },
        None => {
            assert(string_views(deps@) =~= d0 + sdk_label(prefix@, v));
        },
    }
}

/// What `detect_android` guarantees, from the report before (`o`) to the report after (`n`).
pub open spec fn android_post(facts: &ModuleFacts, o: ModuleReport, n: ModuleReport, r: Result<(), String>) -> bool {
    &&& (same_shape(&n, &o))
    &&& (n.backend == o.backend)
    &&& (n.frontend == o.frontend)
    &&& (n.frameworks == o.frameworks)
    &&& (n.warnings == o.warnings)
    &&& (!(facts.kind == ModuleKind::Frontend && has_pubspec(facts) && facts.android_gradle.is_some()) ==> r.is_ok()
            && n == o)
    &&& (facts.kind == ModuleKind::Frontend && has_pubspec(facts) && facts.android_gradle.is_some() ==> match facts.android_gradle.unwrap() {
            Err(e) => r == Err::<(), String>(e) && string_views(n.deps@) == string_views(o.deps@).push("Android"@),
            Ok(text) => r.is_ok() && string_views(n.deps@) == string_views(o.deps@).push("Android"@)
                + sdk_label("Android minSdk="@, gradle_sdks(text@).0) + sdk_label("Android targetSdk="@, gradle_sdks(text@).1),
        })
}

/// A Flutter module with an Android build file lists Android, and the SDK levels the
/// file gives.
pub fn detect_android(facts: &ModuleFacts, report: &mut ModuleReport) -> (r: Result<(), String>)
    ensures
        android_post(facts, *old(report), *final(report), r),
{
    if facts.kind != ModuleKind::Frontend {
        return Ok(());
    }
    match &facts.pubspec {
        Ok(None) => return Ok(()),
        _ => {},
    }
    let gradle = match &facts.android_gradle {
        None => return Ok(()),
        Some(g) => g,
    };
    push_label(&mut report.deps, "Android");
    match gradle {
        Err(e) => Err(e.clone()),
        Ok(text) => {
            let sdks = extract_gradle_sdk_versions(text.as_str());
            push_sdk(&mut report.deps, "Android minSdk=", sdks.min_sdk);
            push_sdk(&mut report.deps, "Android targetSdk=", sdks.target_sdk);
            Ok(())
        },
    }
}

/// What `detect_ios` guarantees, from the report before (`o`) to the report after (`n`).
pub open spec fn ios_post(facts: &ModuleFacts, o: ModuleReport, n: ModuleReport) -> bool {
    &&& (same_shape(&n, &o))
    &&& (n.backend == o.backend)
    &&& (n.frontend == o.frontend)
    &&& (n.frameworks == o.frameworks)
    &&& (n.warnings == o.warnings)
    &&& (string_views(n.deps@) == string_views(o.deps@) + if facts.kind == ModuleKind::Frontend
            && has_pubspec(facts) && facts.ios_project {
            seq!["iOS"@]
        } else {
            Seq::empty()
        })
}

/// A Flutter module with an iOS project (a `Podfile` or an `.xcodeproj` under `ios/`)
/// lists iOS.
pub fn detect_ios(facts: &ModuleFacts, report: &mut ModuleReport)
    ensures
        ios_post(facts, *old(report), *final(report)),
{
    let ghost d0 = string_views(report.deps@);
    let present = match &facts.pubspec {
        Ok(None) => false,
        _ => true,
    };
    if facts.kind == ModuleKind::Frontend && present && facts.ios_project {
        push_label(&mut report.deps, "iOS");
        assert(string_views(report.deps@) =~= d0 + seq!["iOS"@]);
    } else {
        assert(string_views(report.deps@) =~= d0 + Seq::<Seq<char>>::empty());
    }
}

} // verus!
