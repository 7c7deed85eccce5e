use vstd::prelude::*;

use crate::manifest::{kind_extension, BitstreamKind};
use crate::text::chars_of;

verus! {

/// Why a bundle could not be made or read.
#[derive(Debug)]
pub enum BundleError {
    NoBitstreamProvided,
    MultipleFiles { extension: String },
    MissingBitstreamFile,
}

/// The text reported for a bundle error.
pub open spec fn bundle_error_message(e: BundleError) -> Seq<char> {
    match e {
        BundleError::NoBitstreamProvided =>
            "At least one bitstream file (XSA, PDI, or BIN) must be provided"@,
        BundleError::MultipleFiles { extension } => "Found multiple files with extension ."@
            + extension@ + " in tarball"@,
        BundleError::MissingBitstreamFile =>
            "Manifest bundle is missing required bitstream file (XSA, PDI, or BIN)"@,
    }
}

impl BundleError {
    /// The text reported for this error.
    pub fn message(&self) -> (r: String)
        ensures
            r@ == bundle_error_message(*self),
    {
        match self {
            BundleError::NoBitstreamProvided => String::from_str(
                "At least one bitstream file (XSA, PDI, or BIN) must be provided",
            ),
            BundleError::MultipleFiles { extension } => {
                let mut r = String::from_str("Found multiple files with extension .");
                r.append(extension.as_str());
                r.append(" in tarball");
                r
            },
            BundleError::MissingBitstreamFile => String::from_str(
                "Manifest bundle is missing required bitstream file (XSA, PDI, or BIN)",
            ),
        }
    }
}

/// The artifacts given for a bundle, in the order they are added to it:
/// XSA, PDI, BIN.
pub open spec fn given_components<P>(xsa: Option<P>, pdi: Option<P>, bin: Option<P>) -> Seq<(BitstreamKind, P)> {
    let a: Seq<(BitstreamKind, P)> = match xsa {
        Some(p) => seq![(BitstreamKind::Xsa, p)],
        None => Seq::empty(),
    };
    let b: Seq<(BitstreamKind, P)> = match pdi {
        Some(p) => seq![(BitstreamKind::Pdi, p)],
        None => Seq::empty(),
    };
    let c: Seq<(BitstreamKind, P)> = match bin {
        Some(p) => seq![(BitstreamKind::Bin, p)],
        None => Seq::empty(),
    };
    a + b + c
}

/// How many artifacts are given.
pub open spec fn given_count<P>(xsa: Option<P>, pdi: Option<P>, bin: Option<P>) -> nat {
    (if xsa is Some { 1nat } else { 0nat }) + (if pdi is Some { 1nat } else { 0nat }) + (if bin is Some {
        1nat
    } else {
        0nat
    })
}

/// Every artifact given for a bundle is bundled, once, as its own kind.
pub proof fn law_every_given_artifact_bundled<P>(xsa: Option<P>, pdi: Option<P>, bin: Option<P>)
    ensures
        given_components(xsa, pdi, bin).len() == given_count(xsa, pdi, bin),
        xsa matches Some(p) ==> given_components(xsa, pdi, bin).contains((BitstreamKind::Xsa, p)),
        pdi matches Some(p) ==> given_components(xsa, pdi, bin).contains((BitstreamKind::Pdi, p)),
        bin matches Some(p) ==> given_components(xsa, pdi, bin).contains((BitstreamKind::Bin, p)),
{
    let g = given_components(xsa, pdi, bin);
    let na: int = if xsa is Some { 1 } else { 0 };
    let nb: int = if pdi is Some { 1 } else { 0 };
    if let Some(p) = xsa {
        assert(g[0] == (BitstreamKind::Xsa, p));
    }
    if let Some(p) = pdi {
        assert(g[na] == (BitstreamKind::Pdi, p));
    }
    if let Some(p) = bin {
        assert(g[na + nb] == (BitstreamKind::Bin, p));
    }
}

/// Orders the artifacts given for a bundle; refuses a bundle with none.
pub fn bundle_components<P>(xsa: Option<P>, pdi: Option<P>, bin: Option<P>) -> (res: Result<
    Vec<(BitstreamKind, P)>,
    BundleError,
>)
    ensures
        (xsa is None && pdi is None && bin is None) ==> (res matches Err(
            BundleError::NoBitstreamProvided,
        )),
        !(xsa is None && pdi is None && bin is None) ==> (res matches Ok(v) && v@
            == given_components(xsa, pdi, bin)),
        res matches Ok(v) ==> v@.len() == given_count(xsa, pdi, bin),
        res matches Ok(v) ==> (xsa matches Some(p) ==> v@.contains((BitstreamKind::Xsa, p))),
        res matches Ok(v) ==> (pdi matches Some(p) ==> v@.contains((BitstreamKind::Pdi, p))),
        res matches Ok(v) ==> (bin matches Some(p) ==> v@.contains((BitstreamKind::Bin, p))),
{
    if xsa.is_none() && pdi.is_none() && bin.is_none() {
        return Err(BundleError::NoBitstreamProvided);
    }
    let ghost (x0, p0, b0) = (xsa, pdi, bin);
    let mut v: Vec<(BitstreamKind, P)> = Vec::new();
    if let Some(p) = xsa {
        v.push((BitstreamKind::Xsa, p));
    }
    if let Some(p) = pdi {
        v.push((BitstreamKind::Pdi, p));
    }
    if let Some(p) = bin {
        v.push((BitstreamKind::Bin, p));
    }
    assert(v@ =~= given_components(x0, p0, b0));
    proof {
        law_every_given_artifact_bundled(x0, p0, b0);
    }
    Ok(v)
}

/// Index of the last `.` in `s`, or -1 when there is none.
pub open spec fn last_dot(s: Seq<char>) -> int
    decreases s.len(),
{
    if s.len() == 0 {
        -1
    } else if s.last() == '.' {
        s.len() - 1
    } else {
        last_dot(s.drop_last())
    }
}

/// The extension of a file name, as `Path::extension` gives it: the text
/// after the last `.`, unless there is no `.`, the only `.` opens the name,
/// or the name is `..`.
pub open spec fn path_extension(name: Seq<char>) -> Option<Seq<char>> {
    if name == seq!['.', '.'] || last_dot(name) <= 0 {
        None
    } else {
        Some(name.skip(last_dot(name) + 1))
    }
}

proof fn lemma_last_dot_bounds(s: Seq<char>)
    ensures
        -1 <= last_dot(s) < s.len(),
        last_dot(s) >= 0 ==> s[last_dot(s)] == '.',
        forall|k: int| last_dot(s) < k < s.len() ==> s[k] != '.',
    decreases s.len(),
{
    if s.len() > 0 && s.last() != '.' {
        lemma_last_dot_bounds(s.drop_last());
        assert forall|k: int| last_dot(s) < k < s.len() implies s[k] != '.' by {
            if k < s.len() - 1 {
                assert(s[k] == s.drop_last()[k]);
            }
        }
    }
}

proof fn lemma_last_dot_before_plain_tail(stem: Seq<char>, ext: Seq<char>)
    requires
        !ext.contains('.'),
    ensures
        last_dot(stem + seq!['.'] + ext) == stem.len(),
    decreases ext.len(),
{
    let name = stem + seq!['.'] + ext;
    if ext.len() > 0 {
        assert(name.last() == ext.last());
        assert(!ext.contains('.') ==> ext.last() != '.') by {
            assert(ext[ext.len() - 1] == ext.last());
        }
        assert(!ext.drop_last().contains('.')) by {
            if ext.drop_last().contains('.') {
                let k = choose|k: int| 0 <= k < ext.drop_last().len() && ext.drop_last()[k] == '.';
                assert(ext[k] == '.');
            }
        }
        assert(name.drop_last() =~= stem + seq!['.'] + ext.drop_last());
        lemma_last_dot_before_plain_tail(stem, ext.drop_last());
    }
}

/// A name made of a non-empty stem, a dot and a text without dots has
/// that text as its extension (except `..`); a name without any dot, or
/// whose only dot opens it, has none.
pub proof fn law_extension_rules(stem: Seq<char>, ext: Seq<char>, plain: Seq<char>)
    ensures
        stem.len() > 0 && !ext.contains('.') && !(stem == seq!['.'] && ext.len() == 0)
            ==> path_extension(stem + seq!['.'] + ext) == Some(ext),
        !plain.contains('.') ==> path_extension(plain) is None,
        !plain.contains('.') ==> path_extension(seq!['.'] + plain) is None,
{
    if stem.len() > 0 && !ext.contains('.') && !(stem == seq!['.'] && ext.len() == 0) {
        lemma_last_dot_before_plain_tail(stem, ext);
        let name = stem + seq!['.'] + ext;
        assert(name.skip(stem.len() + 1 as int) =~= ext);
        if name == seq!['.', '.'] {
            assert(stem.len() == 1 && ext.len() == 0);
            assert(stem =~= seq!['.']);
        }
    }
    if !plain.contains('.') {
        lemma_last_dot_bounds(plain);
        if last_dot(plain) >= 0 {
            assert(plain[last_dot(plain)] == '.');
        }
        assert(plain != seq!['.', '.']) by {
            if plain == seq!['.', '.'] {
                assert(plain[0] == '.');
            }
        }
        let dotted = seq!['.'] + plain;
        lemma_last_dot_bounds(dotted);
        if last_dot(dotted) > 0 {
            assert(dotted[last_dot(dotted)] == plain[last_dot(dotted) - 1]);
        }
    }
}

/// Whether a file name has exactly the given extension.
pub fn has_extension(file_name: &str, extension: &str) -> (r: bool)
    ensures
        r == (path_extension(file_name@) == Some(extension@)),
{
    let name = chars_of(file_name);
    let ext = chars_of(extension);
    let n = name.len();
    if n == 2 && name[0] == '.' && name[1] == '.' {
        assert(name@ =~= seq!['.', '.']);
        return false;
    }
    proof {
        lemma_last_dot_bounds(name@);
    }
    let mut k: usize = n;
    while k > 0 && name[k - 1] != '.'
        invariant
            k <= n,
            n == name@.len(),
            forall|j: int| k <= j < n ==> name@[j] != '.',
        decreases k,
    {
        k = k - 1;
    }
    proof {
        // `k - 1` is the last dot, if there is one
        if k > 0 {
            assert(last_dot(name@) == k - 1) by {
                if last_dot(name@) > k - 1 {
                    assert(name@[last_dot(name@)] == '.');
                }
                if last_dot(name@) < k - 1 {
                    assert(name@[k - 1] == '.');
                }
            }
        } else {
            if last_dot(name@) >= 0 {
                assert(name@[last_dot(name@)] == '.');
            }
        }
    }
    if k <= 1 {
        return false;
    }
    // compare the text after the dot with the extension
    let m = ext.len();
    if n - k != m {
        assert(name@.skip(k as int).len() != ext@.len());
        return false;
    }
    let mut j: usize = 0;
    while j < m
        invariant
            n - k == m,
            name@ == file_name@,
            ext@ == extension@,
            last_dot(name@) == k - 1,
            name@ != seq!['.', '.'],
            m == ext@.len(),
            n == name@.len(),
            1 < k <= n,
            j <= m,
            forall|i: int| 0 <= i < j ==> name@[k + i] == ext@[i],
        decreases m - j,
    {
        if name[k + j] != ext[j] {
            assert(name@.skip(k as int)[j as int] != ext@[j as int]);
            assert(name@.skip(k as int) != ext@);
            return false;
        }
        j = j + 1;
    }
    assert(name@.skip(k as int) =~= ext@);
    true
}

/// The name at index `i` has extension `ext`.
pub open spec fn matches_extension(names: Seq<String>, ext: Seq<char>, i: int) -> bool {
    0 <= i < names.len() && path_extension(names[i]@) == Some(ext)
}

/// Two different names have extension `ext`.
pub open spec fn has_two_matches(names: Seq<String>, ext: Seq<char>) -> bool {
    exists|i: int, j: int| i != j && matches_extension(names, ext, i) && matches_extension(names, ext, j)
}

/// No name has extension `ext`.
pub open spec fn has_no_match(names: Seq<String>, ext: Seq<char>) -> bool {
    forall|i: int| !matches_extension(names, ext, i)
}

/// Finds the one file name with a given extension: `Ok(None)` when no name
/// has it, `Ok(Some(i))` when only the name at `i` has it, and an error
/// when two or more have it.
pub fn find_unique_with_extension(names: &Vec<String>, extension: &str) -> (res: Result<
    Option<usize>,
    BundleError,
>)
    ensures
        has_no_match(names@, extension@) <==> (res matches Ok(None)),
        has_two_matches(names@, extension@) <==> (res matches Err(_)),
        res matches Err(e) ==> (e matches BundleError::MultipleFiles { extension: x } && x@
            == extension@),
        res matches Ok(Some(i)) ==> matches_extension(names@, extension@, i as int) && forall|
            j: int,
        | j != i ==> !matches_extension(names@, extension@, j),
{
    let mut found: Option<usize> = None;
    let mut i: usize = 0;
    while i < names.len()
        invariant
            i <= names@.len(),
            found matches Some(f) ==> f < i && matches_extension(names@, extension@, f as int),
            forall|j: int|
                0 <= j < i && matches_extension(names@, extension@, j) ==> (found matches Some(f)
                    && f == j),
        decreases names@.len() - i,
    {
        if has_extension(names[i].as_str(), extension) {
            if let Some(f) = found {
                assert(matches_extension(names@, extension@, f as int));
                assert(matches_extension(names@, extension@, i as int));
                return Err(BundleError::MultipleFiles { extension: String::from_str(extension) });
            }
            found = Some(i);
        }
        i = i + 1;
    }
    match found {
        None => Ok(None),
        Some(f) => {
            assert(matches_extension(names@, extension@, f as int));
            Ok(Some(f))
        },
    }
}

/// The index of the name that has extension `ext`, when there is one.
pub open spec fn only_match(names: Seq<String>, ext: Seq<char>) -> int {
    choose|i: int| matches_extension(names, ext, i)
}

/// The artifact of one kind found among the names of an unpacked bundle.
pub open spec fn found_entry(names: Seq<String>, kind: BitstreamKind) -> Seq<(BitstreamKind, usize)> {
    if has_no_match(names, kind_extension(kind)) {
        Seq::empty()
    } else {
        seq![(kind, only_match(names, kind_extension(kind)) as usize)]
    }
}

/// The artifacts found among the names of an unpacked bundle, in the order
/// XSA, PDI, BIN.
pub open spec fn found_artifacts(names: Seq<String>) -> Seq<(BitstreamKind, usize)> {
    found_entry(names, BitstreamKind::Xsa) + found_entry(names, BitstreamKind::Pdi) + found_entry(
        names,
        BitstreamKind::Bin,
    )
}

/// The kind whose extension is carried by two or more names, checked in the
/// order XSA, PDI, BIN.
pub open spec fn first_ambiguous_kind(names: Seq<String>) -> Option<BitstreamKind> {
    if has_two_matches(names, kind_extension(BitstreamKind::Xsa)) {
        Some(BitstreamKind::Xsa)
    } else if has_two_matches(names, kind_extension(BitstreamKind::Pdi)) {
        Some(BitstreamKind::Pdi)
    } else if has_two_matches(names, kind_extension(BitstreamKind::Bin)) {
        Some(BitstreamKind::Bin)
    } else {
        None
    }
}

/// With no ambiguity for its kind, the entry found for a kind is the one
/// name carrying its extension, if any.
proof fn lemma_found_entry(names: Seq<String>, kind: BitstreamKind)
    requires
        names.len() <= usize::MAX,
        !has_two_matches(names, kind_extension(kind)),
    ensures
        forall|i: int|
            matches_extension(names, kind_extension(kind), i) ==> found_entry(names, kind) == seq![
                (kind, i as usize),
            ],
        forall|t: int|
            0 <= t < found_entry(names, kind).len() ==> found_entry(names, kind)[t].0 == kind
                && matches_extension(names, kind_extension(kind), found_entry(names, kind)[t].1 as int),
        found_entry(names, kind).len() == 0 <==> has_no_match(names, kind_extension(kind)),
{
    let ext = kind_extension(kind);
    if !has_no_match(names, ext) {
        let j = only_match(names, ext);
        assert(matches_extension(names, ext, j));
        assert((j as usize) as int == j);
        assert forall|i: int| matches_extension(names, ext, i) implies found_entry(names, kind)
            == seq![(kind, i as usize)] by {
            if i != j {
                assert(has_two_matches(names, ext));
            }
        }
    }
}

/// The artifacts found in an unpacked bundle, by the names' extensions:
/// no kind is ambiguous exactly when no extension is carried twice; then
/// every name carrying an artifact extension is found, as that kind, and
/// everything found carries its kind's extension; nothing is found only
/// when no name carries any artifact extension.
pub proof fn law_found_artifacts(names: Seq<String>)
    requires
        names.len() <= usize::MAX,
    ensures
        first_ambiguous_kind(names) is None <==> (!has_two_matches(
            names,
            kind_extension(BitstreamKind::Xsa),
        ) && !has_two_matches(names, kind_extension(BitstreamKind::Pdi)) && !has_two_matches(
            names,
            kind_extension(BitstreamKind::Bin),
        )),
        first_ambiguous_kind(names) matches Some(k) ==> has_two_matches(names, kind_extension(k)),
        first_ambiguous_kind(names) is None ==> (forall|k: BitstreamKind, i: int|
            matches_extension(names, kind_extension(k), i) ==> found_artifacts(names).contains(
                (k, i as usize),
            )),
        first_ambiguous_kind(names) is None ==> (forall|t: int|
            0 <= t < found_artifacts(names).len() ==> matches_extension(
                names,
                kind_extension(found_artifacts(names)[t].0),
                found_artifacts(names)[t].1 as int,
            )),
        first_ambiguous_kind(names) is None ==> (found_artifacts(names).len() == 0 <==> forall|
            k: BitstreamKind,
            i: int,
        | !matches_extension(names, kind_extension(k), i)),
{
    if first_ambiguous_kind(names) is None {
        lemma_found_entry(names, BitstreamKind::Xsa);
        lemma_found_entry(names, BitstreamKind::Pdi);
        lemma_found_entry(names, BitstreamKind::Bin);
        let a = found_entry(names, BitstreamKind::Xsa);
        let b = found_entry(names, BitstreamKind::Pdi);
        let c = found_entry(names, BitstreamKind::Bin);
        let f = found_artifacts(names);
        assert(f == a + b + c);
        assert forall|k: BitstreamKind, i: int|
            matches_extension(names, kind_extension(k), i) implies f.contains((k, i as usize)) by {
            match k {
                BitstreamKind::Xsa => {
                    assert(f[0] == (k, i as usize));
                },
                BitstreamKind::Pdi => {
                    assert(f[a.len() as int] == (k, i as usize));
                },
                BitstreamKind::Bin => {
                    assert(f[(a.len() + b.len()) as int] == (k, i as usize));
                },
            }
        }
        assert forall|t: int| 0 <= t < f.len() implies matches_extension(
            names,
            kind_extension(f[t].0),
            f[t].1 as int,
        ) by {
            if t < a.len() {
                assert(f[t] == a[t]);
            } else if t < a.len() + b.len() {
                assert(f[t] == b[t - a.len()]);
            } else {
                assert(f[t] == c[t - a.len() - b.len()]);
            }
        }
        if f.len() == 0 {
            assert forall|k: BitstreamKind, i: int| !matches_extension(names, kind_extension(k), i) by {
                if matches_extension(names, kind_extension(k), i) {
                    assert(f.contains((k, i as usize)));
                }
            }
        } else {
            assert(matches_extension(names, kind_extension(f[0].0), f[0].1 as int));
        }
    }
}

fn find_kind(names: &Vec<String>, kind: BitstreamKind, found: &mut Vec<(BitstreamKind, usize)>) -> (res:
    Result<(), BundleError>)
    ensures
        has_two_matches(names@, kind_extension(kind)) ==> (res matches Err(
            BundleError::MultipleFiles { extension: x },
        ) && x@ == kind_extension(kind)),
        !has_two_matches(names@, kind_extension(kind)) ==> (res is Ok && final(found)@ == old(
            found,
        )@ + found_entry(names@, kind)),
{
    let ext = kind.extension();
    match find_unique_with_extension(names, ext) {
        Err(e) => Err(e),
        Ok(None) => {
            assert(old(found)@ + Seq::<(BitstreamKind, usize)>::empty() =~= old(found)@);
            Ok(())
        },
        Ok(Some(i)) => {
            assert(!has_no_match(names@, ext@)) by {
                assert(matches_extension(names@, ext@, i as int));
            }
            assert(only_match(names@, ext@) == i as int) by {
                assert(matches_extension(names@, ext@, only_match(names@, ext@)));
            }
            found.push((kind, i));
            Ok(())
        },
    }
}

/// Finds the XSA, PDI and BIN files among the names of an unpacked bundle.
/// Refuses a bundle in which two files share one of these extensions, or
/// in which none of them is present.
pub fn find_bundle_artifacts(names: &Vec<String>) -> (res: Result<
    Vec<(BitstreamKind, usize)>,
    BundleError,
>)
    ensures
        match first_ambiguous_kind(names@) {
            Some(kind) => res matches Err(BundleError::MultipleFiles { extension: x }) && x@
                == kind_extension(kind),
            None => if found_artifacts(names@).len() == 0 {
                res matches Err(BundleError::MissingBitstreamFile)
            } else {
                res matches Ok(v) && v@ == found_artifacts(names@)
            },
        },
        (res matches Err(BundleError::MultipleFiles { .. })) <==> (has_two_matches(
            names@,
            kind_extension(BitstreamKind::Xsa),
        ) || has_two_matches(names@, kind_extension(BitstreamKind::Pdi)) || has_two_matches(
            names@,
            kind_extension(BitstreamKind::Bin),
        )),
        res matches Err(BundleError::MultipleFiles { extension: x }) ==> exists|k: BitstreamKind|
            x@ == kind_extension(k) && has_two_matches(names@, kind_extension(k)),
        (res matches Err(BundleError::MissingBitstreamFile)) ==> forall|k: BitstreamKind, i: int|
            !matches_extension(names@, kind_extension(k), i),
        res matches Ok(v) ==> forall|k: BitstreamKind, i: int|
            matches_extension(names@, kind_extension(k), i) ==> v@.contains((k, i as usize)),
        res matches Ok(v) ==> forall|t: int|
            0 <= t < v@.len() ==> matches_extension(
                names@,
                kind_extension(v@[t].0),
                v@[t].1 as int,
            ),
        (!has_two_matches(names@, kind_extension(BitstreamKind::Xsa)) && !has_two_matches(
            names@,
            kind_extension(BitstreamKind::Pdi),
        ) && !has_two_matches(names@, kind_extension(BitstreamKind::Bin)) && exists|
            k: BitstreamKind,
            i: int,
        | matches_extension(names@, kind_extension(k), i)) ==> res is Ok,
{
    let mut found: Vec<(BitstreamKind, usize)> = Vec::new();
    find_kind(names, BitstreamKind::Xsa, &mut found)?;
    find_kind(names, BitstreamKind::Pdi, &mut found)?;
    find_kind(names, BitstreamKind::Bin, &mut found)?;
    assert(found@ =~= found_artifacts(names@));
    let ghost n = names.len();
    proof {
        assert(names@.len() == n);
        law_found_artifacts(names@);
    }
    if found.len() == 0 {
        return Err(BundleError::MissingBitstreamFile);
    }
    Ok(found)
}

} // verus!
