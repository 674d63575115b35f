//! Choice of the hardware graph profile for a model.
//!
//! Profiles are found in directory trees, matched to a model by name, and offered in a menu
//! where no match is found.

use vstd::prelude::*;
use vstd::string::*;
use vstd::utf8::*;

use crate::container::{ContainerError, ContainerFault, IoFault, IoFaultView};
use crate::text::{
    chars_of, contains, decimal, decimal_text, has_suffix, has_text, is_alphanumeric,
    letter_or_digit, lowered, parse_digits, parsed_digits, same_text, string_of, to_lowercase, trim,
    trimmed,
};

verus! {

/// A hardware graph profile.
#[derive(Debug, Clone)]
pub struct XclbinProfile {
    pub name: String,
    pub profile_dir: String,
    pub primary_xclbin_path: String,
}

/// An [`XclbinProfile`] as mathematical values.
pub struct Profile {
    pub name: Seq<char>,
    pub dir: Seq<char>,
    pub path: Seq<char>,
}

impl View for XclbinProfile {
    type V = Profile;

    open spec fn view(&self) -> Profile {
        Profile {
            name: self.name@,
            dir: self.profile_dir@,
            path: self.primary_xclbin_path@,
        }
    }
}

/// Profiles as mathematical values.
pub open spec fn profiles_of(v: Seq<XclbinProfile>) -> Seq<Profile> {
    v.map_values(|p: XclbinProfile| p@)
}

impl XclbinProfile {
    /// The same profile once more.
    pub fn duplicate(&self) -> (r: XclbinProfile)
        ensures
            r@ == self@,
    {
        XclbinProfile {
            name: self.name.clone(),
            profile_dir: self.profile_dir.clone(),
            primary_xclbin_path: self.primary_xclbin_path.clone(),
        }
    }
}

// ---------------------------------------------------------------------------
// Search paths
// ---------------------------------------------------------------------------

/// Directories that are always searched.
pub open spec fn default_search_paths() -> Seq<Seq<char>> {
    seq![
        "/usr/local/share/llama-apu/xclbins"@,
        "/usr/local/share/apu-backend/xclbins"@,
        "/opt/llama-apu/xclbins"@,
        "/opt/fastflowlm/share/flm/xclbins"@,
        "/home/fencer/.openclaw/workspace/projects/fastflowlm/src/xclbins"@,
        "./xclbins"@,
        "../xclbins"@,
    ]
}

/// A path below another one.
pub open spec fn joined_path(base: Seq<char>, below: Seq<char>) -> Seq<char> {
    if base.len() == 0 {
        below
    } else if base.last() == '/' {
        base + below
    } else {
        base + "/"@ + below
    }
}

/// One path, or none.
pub open spec fn optional_path(p: Option<&str>) -> Seq<Seq<char>> {
    match p {
        Some(s) => seq![s@],
        None => Seq::empty(),
    }
}

/// The directories that are searched, in order: a given one, those of two environment
/// variables, one in the home directory, and the default ones.
pub open spec fn search_path_list(
    custom: Option<&str>,
    llama_apu_dir: Option<&str>,
    apu_dir: Option<&str>,
    home: Option<&str>,
) -> Seq<Seq<char>> {
    optional_path(custom) + optional_path(llama_apu_dir) + optional_path(apu_dir) + match home {
        Some(h) => seq![joined_path(h@, ".local/share/llama-apu/xclbins"@)],
        None => Seq::empty(),
    } + default_search_paths()
}

/// The texts of strings.
pub open spec fn texts_of(v: Seq<String>) -> Seq<Seq<char>> {
    v.map_values(|s: String| s@)
}

fn push_text(out: &mut Vec<String>, s: &str)
    ensures
        texts_of(final(out)@) == texts_of(old(out)@).push(s@),
{
    let ghost before = texts_of(out@);
    out.push(s.to_owned());
    assert(texts_of(out@) =~= before.push(s@));
}

/// A path below another one.
fn join_path(base: &str, below: &str) -> (r: String)
    ensures
        r@ == joined_path(base@, below@),
{
    let cs = chars_of(base);
    if cs.len() == 0 {
        below.to_owned()
    } else if cs[cs.len() - 1] == '/' {
        base.to_owned().concat(below)
    } else {
        base.to_owned().concat("/").concat(below)
    }
}

/// The directories that are searched, in order.
pub fn search_paths(
    custom: Option<&str>,
    llama_apu_dir: Option<&str>,
    apu_dir: Option<&str>,
    home: Option<&str>,
) -> (r: Vec<String>)
    ensures
        texts_of(r@) == search_path_list(custom, llama_apu_dir, apu_dir, home),
{
    let mut out: Vec<String> = Vec::new();
    assert(texts_of(out@) =~= Seq::empty());
    match custom {
        Some(s) => push_text(&mut out, s),
        None => {},
    }
    match llama_apu_dir {
        Some(s) => push_text(&mut out, s),
        None => {},
    }
    match apu_dir {
        Some(s) => push_text(&mut out, s),
        None => {},
    }
    match home {
        Some(h) => {
            let p = join_path(h, ".local/share/llama-apu/xclbins");
            push_text(&mut out, p.as_str());
        },
        None => {},
    }
    push_text(&mut out, "/usr/local/share/llama-apu/xclbins");
    push_text(&mut out, "/usr/local/share/apu-backend/xclbins");
    push_text(&mut out, "/opt/llama-apu/xclbins");
    push_text(&mut out, "/opt/fastflowlm/share/flm/xclbins");
    push_text(&mut out, "/home/fencer/.openclaw/workspace/projects/fastflowlm/src/xclbins");
    push_text(&mut out, "./xclbins");
    push_text(&mut out, "../xclbins");
    assert(texts_of(out@) =~= search_path_list(custom, llama_apu_dir, apu_dir, home));
    out
}

// ---------------------------------------------------------------------------
// Discovery
// ---------------------------------------------------------------------------

/// How deep directories are searched below a search path.
pub const MAX_DEPTH: usize = 3;

/// Kernel files that make a directory a profile, the preferred one first.
pub const LAYER_KERNEL: &'static str = "layer.xclbin";

pub const MM_KERNEL: &'static str = "mm.xclbin";

pub const ATTN_KERNEL: &'static str = "attn.xclbin";

/// The kernel file of a directory, by which of them it has.
pub fn choose_kernel(has_layer: bool, has_mm: bool, has_attn: bool) -> (r: Option<&'static str>)
    ensures
        match r {
            Some(name) => name@ == if has_layer {
                LAYER_KERNEL@
            } else if has_mm {
                MM_KERNEL@
            } else {
                ATTN_KERNEL@
            } && (has_layer || has_mm || has_attn),
            None => !has_layer && !has_mm && !has_attn,
        },
{
    if has_layer {
        Some(LAYER_KERNEL)
    } else if has_mm {
        Some(MM_KERNEL)
    } else if has_attn {
        Some(ATTN_KERNEL)
    } else {
        None
    }
}

/// An entry of a directory.
pub struct DirEntry {
    /// File name; empty where it is not valid text.
    pub name: String,
    /// File name without its extension; empty where it is not valid text.
    pub stem: String,
    pub path: String,
    /// Path of the directory that it lies in.
    pub parent: String,
    pub is_dir: bool,
    pub is_file: bool,
    /// Whether its file name extension is `xclbin`.
    pub is_xclbin: bool,
    /// Of a directory: the path of the kernel file that [`choose_kernel`] takes.
    pub kernel: Option<String>,
    /// Of a directory: its entries, none where it cannot be read.
    pub children: Vec<DirEntry>,
}

/// The first entry that is an XCLBIN file, from entry `i` on.
pub open spec fn first_xclbin(entries: Seq<DirEntry>, i: int) -> Option<Seq<char>>
    decreases entries.len() - i,
{
    if i < 0 || i >= entries.len() {
        None
    } else if entries[i].is_file && entries[i].is_xclbin {
        Some(entries[i].path@)
    } else {
        first_xclbin(entries, i + 1)
    }
}

/// The XCLBIN of a directory.
pub open spec fn directory_xclbin(e: DirEntry) -> Option<Seq<char>> {
    match e.kernel {
        Some(k) => Some(k@),
        None => first_xclbin(e.children@, 0),
    }
}

/// Some profile has the name.
pub open spec fn has_name(ps: Seq<Profile>, name: Seq<char>) -> bool {
    exists|i: int| 0 <= i < ps.len() && #[trigger] ps[i].name == name
}

/// Profiles with one more, unless its name is taken.
pub open spec fn offered(ps: Seq<Profile>, p: Profile) -> Seq<Profile> {
    if has_name(ps, p.name) {
        ps
    } else {
        ps.push(p)
    }
}

/// Profiles with those of the entries of a directory at a depth, from entry `i` on.
pub open spec fn scanned(ps: Seq<Profile>, entries: Seq<DirEntry>, i: int, depth: nat) -> Seq<
    Profile,
>
    decreases MAX_DEPTH + 1 - depth, entries.len() - i,
{
    if depth > MAX_DEPTH || i < 0 || i >= entries.len() {
        ps
    } else {
        let e = entries[i];
        let next = if e.is_dir {
            match directory_xclbin(e) {
                Some(x) => offered(ps, Profile { name: e.name@, dir: e.path@, path: x }),
                None => scanned(ps, e.children@, 0, depth + 1),
            }
        } else if e.is_file && e.is_xclbin {
            offered(ps, Profile { name: e.stem@, dir: e.parent@, path: e.path@ })
        } else {
            ps
        };
        scanned(next, entries, i + 1, depth)
    }
}

/// Profiles with those of the first `k` search paths.
pub open spec fn scanned_roots(roots: Seq<Vec<DirEntry>>, k: nat) -> Seq<Profile>
    decreases k,
{
    if k == 0 {
        Seq::empty()
    } else {
        scanned(scanned_roots(roots, (k - 1) as nat), roots[k - 1]@, 0, 0)
    }
}

/// Whether a name is taken.
fn name_taken(ps: &Vec<XclbinProfile>, name: &str) -> (r: bool)
    ensures
        r == has_name(profiles_of(ps@), name@),
{
    let mut i: usize = 0;
    while i < ps.len()
        invariant
            i <= ps@.len(),
            forall|k: int| 0 <= k < i ==> #[trigger] profiles_of(ps@)[k].name != name@,
        decreases ps@.len() - i,
    {
        assert(profiles_of(ps@)[i as int].name == ps@[i as int].name@);
        if same_text(ps[i].name.as_str(), name) {
            return true;
        }
        i = i + 1;
    }
    false
}

/// Adds a profile, unless its name is taken.
fn offer(ps: &mut Vec<XclbinProfile>, name: &str, dir: &str, path: &str)
    ensures
        profiles_of(final(ps)@) == offered(
            profiles_of(old(ps)@),
            Profile { name: name@, dir: dir@, path: path@ },
        ),
{
    if !name_taken(ps, name) {
        let ghost before = profiles_of(ps@);
        let p = XclbinProfile {
            name: name.to_owned(),
            profile_dir: dir.to_owned(),
            primary_xclbin_path: path.to_owned(),
        };
        ps.push(p);
        assert(profiles_of(ps@) =~= before.push(p@));
    }
}

/// The first entry that is an XCLBIN file.
fn find_xclbin(entries: &Vec<DirEntry>) -> (r: Option<String>)
    ensures
        match r {
            Some(s) => first_xclbin(entries@, 0) == Some(s@),
            None => first_xclbin(entries@, 0) is None,
        },
{
    let mut i: usize = 0;
    while i < entries.len()
        invariant
            i <= entries@.len(),
            first_xclbin(entries@, i as int) == first_xclbin(entries@, 0),
        decreases entries@.len() - i,
    {
        if entries[i].is_file && entries[i].is_xclbin {
            return Some(entries[i].path.clone());
        }
        i = i + 1;
    }
    None
}

/// Adds the profiles of a directory's entries: a directory with an XCLBIN is a profile, and so
/// is an XCLBIN file; other directories are searched in turn, to a depth of three.
pub fn scan_directory_for_profiles(
    entries: &Vec<DirEntry>,
    current_depth: usize,
    profiles: &mut Vec<XclbinProfile>,
)
    ensures
        profiles_of(final(profiles)@) == scanned(
            profiles_of(old(profiles)@),
            entries@,
            0,
            current_depth as nat,
        ),
    decreases MAX_DEPTH + 1 - current_depth,
{
    if current_depth > MAX_DEPTH {
        return ;
    }
    let mut i: usize = 0;
    while i < entries.len()
        invariant
            i <= entries@.len(),
            current_depth <= MAX_DEPTH,
            scanned(profiles_of(profiles@), entries@, i as int, current_depth as nat) == scanned(
                profiles_of(old(profiles)@),
                entries@,
                0,
                current_depth as nat,
            ),
        decreases entries@.len() - i,
    {
        let e: &DirEntry = &entries[i];
        if e.is_dir {
            let found: Option<String> = match &e.kernel {
                Some(k) => Some(k.clone()),
                None => find_xclbin(&e.children),
            };
            match found {
                Some(x) => offer(profiles, e.name.as_str(), e.path.as_str(), x.as_str()),
                None => scan_directory_for_profiles(&e.children, current_depth + 1, profiles),
            }
        } else if e.is_file && e.is_xclbin {
            offer(profiles, e.stem.as_str(), e.parent.as_str(), e.path.as_str());
        }
        i = i + 1;
    }
}

/// One text is before another: at the first place where they differ its character is smaller,
/// or it is a proper beginning of the other.
pub open spec fn text_before(a: Seq<char>, b: Seq<char>) -> bool
    decreases a.len(),
{
    if b.len() == 0 {
        false
    } else if a.len() == 0 {
        true
    } else if a[0] == b[0] {
        text_before(a.skip(1), b.skip(1))
    } else {
        a[0] < b[0]
    }
}

proof fn lemma_before_asymmetric(a: Seq<char>, b: Seq<char>)
    requires
        text_before(a, b),
    ensures
        !text_before(b, a),
    decreases a.len(),
{
    if a.len() > 0 && a[0] == b[0] {
        lemma_before_asymmetric(a.skip(1), b.skip(1));
    }
}

/// A text that is not before a second one, which is not before a third, is not before the third.
proof fn lemma_not_before_transitive(x: Seq<char>, s: Seq<char>, p: Seq<char>)
    requires
        !text_before(x, s),
        !text_before(s, p),
    ensures
        !text_before(x, p),
    decreases x.len(),
{
    if x.len() > 0 && s.len() > 0 && p.len() > 0 && x[0] == s[0] && s[0] == p[0] {
        lemma_not_before_transitive(x.skip(1), s.skip(1), p.skip(1));
    }
}

/// Whether one text is before another.
fn is_before(a: &[char], b: &[char]) -> (r: bool)
    ensures
        r == text_before(a@, b@),
{
    let mut i: usize = 0;
    assert(a@.skip(0) =~= a@);
    assert(b@.skip(0) =~= b@);
    while i < a.len() && i < b.len()
        invariant
            i <= a@.len(),
            i <= b@.len(),
            text_before(a@, b@) == text_before(a@.skip(i as int), b@.skip(i as int)),
        decreases a@.len() - i,
    {
        assert(a@.skip(i as int)[0] == a@[i as int]);
        assert(b@.skip(i as int)[0] == b@[i as int]);
        if a[i] != b[i] {
            return a[i] < b[i];
        }
        assert(a@.skip(i as int).skip(1) =~= a@.skip(i + 1));
        assert(b@.skip(i as int).skip(1) =~= b@.skip(i + 1));
        i = i + 1;
    }
    i < b.len()
}

/// No name is before one that stands further on.
pub open spec fn sorted_by_name(ps: Seq<Profile>) -> bool {
    forall|i: int, j: int| 0 <= i < j < ps.len() ==> !text_before(ps[j].name, ps[i].name)
}

/// The profiles in the order of their names.
fn sort_profiles(profiles: Vec<XclbinProfile>) -> (r: Vec<XclbinProfile>)
    ensures
        sorted_by_name(profiles_of(r@)),
        profiles_of(r@).to_multiset() == profiles_of(profiles@).to_multiset(),
{
    let mut rest = profiles;
    let mut out: Vec<XclbinProfile> = Vec::new();
    let ghost all = profiles_of(profiles@).to_multiset();
    proof {
        vstd::seq_lib::to_multiset_len(profiles_of(out@));
        assert(profiles_of(out@).to_multiset() =~= vstd::multiset::Multiset::empty());
        assert(profiles_of(rest@).to_multiset().add(profiles_of(out@).to_multiset()) =~= all);
    }
    while rest.len() > 0
        invariant
            sorted_by_name(profiles_of(out@)),
            profiles_of(rest@).to_multiset().add(profiles_of(out@).to_multiset()) == all,
        decreases rest@.len(),
    {
        let ghost rest_before = profiles_of(rest@);
        let ghost out_before = profiles_of(out@);
        match rest.pop() {
            None => {},
            Some(p) => {
                let name = chars_of(p.name.as_str());
                let mut at: usize = 0;
                let mut looking: bool = true;
                while looking && at < out.len()
                    invariant
                        at <= out@.len(),
                        name@ == p.name@,
                        out_before == profiles_of(out@),
                        forall|k: int|
                            0 <= k < at ==> text_before(#[trigger] out_before[k].name, p.name@),
                        !looking ==> at < out@.len() && !text_before(
                            out_before[at as int].name,
                            p.name@,
                        ),
                    ensures
                        !looking || at == out@.len(),
                    decreases out@.len() - at + (if looking { 1int } else { 0int }),
                {
                    let other = chars_of(out[at].name.as_str());
                    assert(out_before[at as int].name == out@[at as int].name@);
                    if is_before(&other, &name) {
                        at = at + 1;
                    } else {
                        looking = false;
                    }
                }
                out.insert(at, p);
                proof {
                    assert(profiles_of(out@) =~= out_before.insert(at as int, p@));
                    assert(rest_before =~= profiles_of(rest@).push(p@));
                    vstd::seq_lib::to_multiset_insert(out_before, at as int, p@);
                    vstd::seq_lib::to_multiset_build(profiles_of(rest@), p@);
                    assert(profiles_of(rest@).to_multiset().add(
                        profiles_of(out@).to_multiset(),
                    ) =~= rest_before.to_multiset().add(out_before.to_multiset()));
                    lemma_insert_keeps_order(out_before, at as int, p@);
                }
            },
        }
    }
    proof {
        assert(profiles_of(rest@) =~= Seq::empty());
        vstd::seq_lib::to_multiset_len(profiles_of(rest@));
        assert(profiles_of(rest@).to_multiset() =~= vstd::multiset::Multiset::empty());
        assert(profiles_of(out@).to_multiset() =~= all);
    }
    out
}

proof fn lemma_insert_keeps_order(ps: Seq<Profile>, at: int, p: Profile)
    requires
        sorted_by_name(ps),
        0 <= at <= ps.len(),
        forall|k: int| 0 <= k < at ==> text_before(#[trigger] ps[k].name, p.name),
        at < ps.len() ==> !text_before(ps[at].name, p.name),
    ensures
        sorted_by_name(ps.insert(at, p)),
{
    let q = ps.insert(at, p);
    assert forall|i: int, j: int| 0 <= i < j < q.len() implies !text_before(
        q[j].name,
        q[i].name,
    ) by {
        if j == at {
            assert(q[i] == ps[i]);
            lemma_before_asymmetric(ps[i].name, p.name);
        } else if i == at {
            assert(q[j] == ps[j - 1]);
            if j - 1 > at {
                lemma_not_before_transitive(ps[j - 1].name, ps[at].name, p.name);
            }
        } else {
            let i2 = if i < at {
                i
            } else {
                i - 1
            };
            let j2 = if j < at {
                j
            } else {
                j - 1
            };
            assert(q[i] == ps[i2] && q[j] == ps[j2]);
        }
    }
}

/// All profiles in the given search paths, by name. Of several with one name the first is taken.
pub fn discover_xclbin_profiles(roots: &[Vec<DirEntry>]) -> (r: Vec<XclbinProfile>)
    ensures
        sorted_by_name(profiles_of(r@)),
        profiles_of(r@).to_multiset() == scanned_roots(roots@, roots@.len()).to_multiset(),
{
    let mut found: Vec<XclbinProfile> = Vec::new();
    let mut k: usize = 0;
    assert(profiles_of(found@) =~= Seq::empty());
    while k < roots.len()
        invariant
            k <= roots@.len(),
            profiles_of(found@) == scanned_roots(roots@, k as nat),
        decreases roots@.len() - k,
    {
        scan_directory_for_profiles(&roots[k], 0, &mut found);
        k = k + 1;
    }
    sort_profiles(found)
}

// ---------------------------------------------------------------------------
// Matching
// ---------------------------------------------------------------------------

/// The letters and digits of a text.
pub open spec fn only_alphanumeric(s: Seq<char>) -> Seq<char>
    decreases s.len(),
{
    if s.len() == 0 {
        Seq::empty()
    } else if letter_or_digit(s.last()) {
        only_alphanumeric(s.drop_last()).push(s.last())
    } else {
        only_alphanumeric(s.drop_last())
    }
}

/// A name as it is compared: letters and digits in lower case.
pub open spec fn normalized(s: Seq<char>) -> Seq<char> {
    lowered(only_alphanumeric(s))
}

/// A name as it is compared.
pub fn normalize_key(s: &str) -> (r: String)
    ensures
        r@ == normalized(s@),
{
    let cs = chars_of(s);
    let mut kept: Vec<char> = Vec::new();
    let mut i: usize = 0;
    while i < cs.len()
        invariant
            i <= cs@.len(),
            kept@ == only_alphanumeric(cs@.take(i as int)),
        decreases cs@.len() - i,
    {
        proof {
            let t = cs@.take(i + 1);
            assert(t.drop_last() =~= cs@.take(i as int));
            assert(t.last() == cs@[i as int]);
        }
        if is_alphanumeric(cs[i]) {
            kept.push(cs[i]);
        }
        i = i + 1;
    }
    assert(cs@.take(cs@.len() as int) =~= cs@);
    let text = string_of(&kept);
    to_lowercase(text.as_str())
}

/// The first of the greatest scores; none where all are zero.
pub open spec fn first_best(scores: Seq<nat>) -> Option<int>
    decreases scores.len(),
{
    if scores.len() == 0 {
        None
    } else {
        let n = scores.len() - 1;
        match first_best(scores.drop_last()) {
            None => if scores[n] > 0 {
                Some(n)
            } else {
                None
            },
            Some(i) => if scores[n] > scores[i] {
                Some(n)
            } else {
                Some(i)
            },
        }
    }
}

/// The first best score is greater than those before it and at least as great as those behind
/// it; there is none only where all scores are zero.
pub proof fn law_first_best(scores: Seq<nat>)
    ensures
        match first_best(scores) {
            Some(i) => {
                &&& 0 <= i < scores.len()
                &&& scores[i] > 0
                &&& forall|k: int| 0 <= k < i ==> #[trigger] scores[k] < scores[i]
                &&& forall|k: int| 0 <= k < scores.len() ==> #[trigger] scores[k] <= scores[i]
            },
            None => forall|k: int| 0 <= k < scores.len() ==> #[trigger] scores[k] == 0,
        },
    decreases scores.len(),
{
    if scores.len() > 0 {
        let rest = scores.drop_last();
        law_first_best(rest);
        assert forall|k: int| 0 <= k < rest.len() implies #[trigger] rest[k] == scores[k] by {}
        match first_best(rest) {
            Some(i) => {
                assert forall|k: int| 0 <= k < rest.len() implies #[trigger] scores[k]
                    <= scores[i] by {
                    assert(rest[k] <= rest[i]);
                }
                assert forall|k: int| 0 <= k < i implies #[trigger] scores[k] < scores[i] by {
                    assert(rest[k] < rest[i]);
                }
            },
            None => {
                assert forall|k: int| 0 <= k < rest.len() implies #[trigger] scores[k] == 0 by {
                    assert(rest[k] == 0);
                }
            },
        }
    }
}

/// The first of the greatest scores.
fn find_best(scores: &Vec<u64>) -> (r: Option<usize>)
    ensures
        match r {
            Some(i) => first_best(as_nats(scores@)) == Some(i as int) && i < scores@.len(),
            None => first_best(as_nats(scores@)) is None,
        },
{
    let mut best: Option<usize> = None;
    let mut i: usize = 0;
    assert(as_nats(scores@).take(0) =~= Seq::empty());
    while i < scores.len()
        invariant
            i <= scores@.len(),
            match best {
                Some(b) => b < i && first_best(as_nats(scores@).take(i as int)) == Some(b as int),
                None => first_best(as_nats(scores@).take(i as int)) is None,
            },
        decreases scores@.len() - i,
    {
        let ghost t = as_nats(scores@).take(i + 1);
        assert(t.drop_last() =~= as_nats(scores@).take(i as int));
        assert(t[i as int] == scores@[i as int]);
        match best {
            None => {
                if scores[i] > 0 {
                    best = Some(i);
                }
            },
            Some(b) => {
                assert(t[b as int] == scores@[b as int]);
                if scores[i] > scores[b] {
                    best = Some(i);
                }
            },
        }
        i = i + 1;
    }
    assert(as_nats(scores@).take(scores@.len() as int) =~= as_nats(scores@));
    best
}

/// Numbers as mathematical values.
pub open spec fn as_nats(v: Seq<u64>) -> Seq<nat> {
    v.map_values(|n: u64| n as nat)
}

/// The first text that equals `t`, from `i` on.
pub open spec fn first_equal(v: Seq<Seq<char>>, t: Seq<char>, i: int) -> Option<int>
    decreases v.len() - i,
{
    if i < 0 || i >= v.len() {
        None
    } else if v[i] == t {
        Some(i)
    } else {
        first_equal(v, t, i + 1)
    }
}

/// How well a name fits that is part of the model's name or has it as a part: by its length in
/// bytes.
pub open spec fn containment_score(model: Seq<char>, name: Seq<char>) -> nat {
    if has_text(model, name) || has_text(name, model) {
        encode_utf8(name).len()
    } else {
        0
    }
}

/// Names of model families.
pub open spec fn families() -> Seq<Seq<char>> {
    seq![
        "llama"@,
        "qwen"@,
        "gemma"@,
        "phi"@,
        "deepseek"@,
        "mistral"@,
        "falcon"@,
        "starcoder"@,
        "baichuan"@,
        "nanbeige"@,
        "lfm"@,
        "whisper"@,
        "gpt"@,
        "aquila"@,
        "command"@,
        "refact"@,
        "spark"@,
        "ornith"@,
    ]
}

/// Parameter counts as they occur in names.
pub open spec fn sizes() -> Seq<Seq<char>> {
    seq![
        "300m"@,
        "500m"@,
        "600m"@,
        "800m"@,
        "0.5b"@,
        "0.6b"@,
        "0.8b"@,
        "1b"@,
        "1.2b"@,
        "1.5b"@,
        "1.7b"@,
        "2b"@,
        "2.5b"@,
        "2.6b"@,
        "3b"@,
        "4b"@,
        "8b"@,
        "9b"@,
        "14b"@,
        "20b"@,
        "35b"@,
        "70b"@,
    ]
}

/// Version numbers as they occur in names.
pub open spec fn versions() -> Seq<Seq<char>> {
    seq![
        "1.0"@,
        "1.5"@,
        "2.0"@,
        "2.5"@,
        "3.0"@,
        "3.1"@,
        "3.2"@,
        "3.5"@,
        "3.6"@,
        "4.0"@,
        "4.1"@,
    ]
}

/// How many of the first `n` words stand in both texts.
pub open spec fn common_words(words: Seq<Seq<char>>, a: Seq<char>, b: Seq<char>, n: nat) -> nat
    decreases n,
{
    if n == 0 {
        0
    } else {
        common_words(words, a, b, (n - 1) as nat) + if has_text(a, words[n - 1]) && has_text(
            b,
            words[n - 1],
        ) {
            1nat
        } else {
            0
        }
    }
}

/// How well two lower-cased names fit: ten for each common family, twenty for each common
/// parameter count, fifteen for each common version.
pub open spec fn keyword_score(a: Seq<char>, b: Seq<char>) -> nat {
    10 * common_words(families(), a, b, 18) + 20 * common_words(sizes(), a, b, 22) + 15
        * common_words(versions(), a, b, 11)
}

/// The profile that a model is matched to: the first with the same normalized name, else the
/// best by containment of normalized names, else the best by keywords.
pub open spec fn match_index(
    norm_model: Seq<char>,
    model_lower: Seq<char>,
    norm_names: Seq<Seq<char>>,
    lower_names: Seq<Seq<char>>,
) -> Option<int> {
    let by_part = first_best(norm_names.map_values(|n: Seq<char>| containment_score(norm_model, n)));
    if first_equal(norm_names, norm_model, 0) is Some {
        first_equal(norm_names, norm_model, 0)
    } else if by_part is Some {
        by_part
    } else {
        first_best(lower_names.map_values(|n: Seq<char>| keyword_score(model_lower, n)))
    }
}

/// How many words stand in both texts.
fn count_common(words: &Vec<&str>, a: &str, b: &str) -> (r: u64)
    requires
        words@.len() <= 100,
    ensures
        r == common_words(words@.map_values(|s: &str| s@), a@, b@, words@.len()),
        r <= words@.len(),
{
    let mut n: u64 = 0;
    let mut i: usize = 0;
    let ghost w = words@.map_values(|s: &str| s@);
    while i < words.len()
        invariant
            i <= words@.len() <= 100,
            w == words@.map_values(|s: &str| s@),
            n == common_words(w, a@, b@, i as nat),
            n <= i,
        decreases words@.len() - i,
    {
        let word: &str = words[i];
        assert(w[i as int] == word@);
        if contains(a, word) && contains(b, word) {
            n = n + 1;
        }
        i = i + 1;
    }
    n
}

/// How well two lower-cased names fit.
fn score_keywords(a: &str, b: &str) -> (r: u64)
    ensures
        r == keyword_score(a@, b@),
{
    let f: Vec<&str> = vec![
        "llama", "qwen", "gemma", "phi", "deepseek", "mistral", "falcon", "starcoder", "baichuan",
        "nanbeige", "lfm", "whisper", "gpt", "aquila", "command", "refact", "spark", "ornith",
    ];
    let s: Vec<&str> = vec![
        "300m", "500m", "600m", "800m", "0.5b", "0.6b", "0.8b", "1b", "1.2b", "1.5b", "1.7b", "2b",
        "2.5b", "2.6b", "3b", "4b", "8b", "9b", "14b", "20b", "35b", "70b",
    ];
    let v: Vec<&str> = vec![
        "1.0", "1.5", "2.0", "2.5", "3.0", "3.1", "3.2", "3.5", "3.6", "4.0", "4.1",
    ];
    assert(f@.map_values(|s: &str| s@) =~= families());
    assert(s@.map_values(|s: &str| s@) =~= sizes());
    assert(v@.map_values(|s: &str| s@) =~= versions());
    10 * count_common(&f, a, b) + 20 * count_common(&s, a, b) + 15 * count_common(&v, a, b)
}

/// The profile that a model is matched to, by normalized and lower-cased names.
pub fn match_names(
    norm_model: &str,
    model_lower: &str,
    norm_names: &Vec<String>,
    lower_names: &Vec<String>,
) -> (r: Option<usize>)
    ensures
        match r {
            Some(i) => match_index(
                norm_model@,
                model_lower@,
                texts_of(norm_names@),
                texts_of(lower_names@),
            ) == Some(i as int),
            None => match_index(
                norm_model@,
                model_lower@,
                texts_of(norm_names@),
                texts_of(lower_names@),
            ) is None,
        },
{
    let ghost norms = texts_of(norm_names@);
    let ghost lowers = texts_of(lower_names@);
    let mut i: usize = 0;
    while i < norm_names.len()
        invariant
            i <= norm_names@.len(),
            norms == texts_of(norm_names@),
            first_equal(norms, norm_model@, i as int) == first_equal(norms, norm_model@, 0),
        decreases norm_names@.len() - i,
    {
        assert(norms[i as int] == norm_names@[i as int]@);
        if same_text(norm_names[i].as_str(), norm_model) {
            return Some(i);
        }
        i = i + 1;
    }
    let ghost fit = |n: Seq<char>| containment_score(norm_model@, n);
    let mut scores: Vec<u64> = Vec::new();
    let mut k: usize = 0;
    while k < norm_names.len()
        invariant
            k <= norm_names@.len(),
            norms == texts_of(norm_names@),
            fit == (|n: Seq<char>| containment_score(norm_model@, n)),
            as_nats(scores@) == norms.take(k as int).map_values(fit),
            scores@.len() == k,
        decreases norm_names@.len() - k,
    {
        let name = norm_names[k].as_str();
        assert(norms[k as int] == name@);
        let score: u64 = if contains(norm_model, name) || contains(name, norm_model) {
            name.as_bytes().len() as u64
        } else {
            0
        };
        let ghost before = as_nats(scores@);
        scores.push(score);
        assert(as_nats(scores@) =~= before.push(score as nat));
        assert(norms.take(k + 1).map_values(fit) =~= before.push(fit(norms[k as int])));
        k = k + 1;
    }
    assert(norms.take(norms.len() as int) =~= norms);
    match find_best(&scores) {
        Some(b) => {
            return Some(b);
        },
        None => {},
    }
    let ghost key = |n: Seq<char>| keyword_score(model_lower@, n);
    let mut ranks: Vec<u64> = Vec::new();
    let mut j: usize = 0;
    while j < lower_names.len()
        invariant
            j <= lower_names@.len(),
            lowers == texts_of(lower_names@),
            key == (|n: Seq<char>| keyword_score(model_lower@, n)),
            as_nats(ranks@) == lowers.take(j as int).map_values(key),
            ranks@.len() == j,
        decreases lower_names@.len() - j,
    {
        assert(lowers[j as int] == lower_names@[j as int]@);
        let rank: u64 = score_keywords(model_lower, lower_names[j].as_str());
        let ghost before = as_nats(ranks@);
        ranks.push(rank);
        assert(as_nats(ranks@) =~= before.push(rank as nat));
        assert(lowers.take(j + 1).map_values(key) =~= before.push(key(lowers[j as int])));
        j = j + 1;
    }
    assert(lowers.take(lowers.len() as int) =~= lowers);
    find_best(&ranks)
}

/// The normalized names of profiles.
pub open spec fn normalized_names(ps: Seq<Profile>) -> Seq<Seq<char>> {
    ps.map_values(|p: Profile| normalized(p.name))
}

/// The lower-cased names of profiles.
pub open spec fn lower_case_names(ps: Seq<Profile>) -> Seq<Seq<char>> {
    ps.map_values(|p: Profile| lowered(p.name))
}

/// The profile that a model is matched to.
pub open spec fn matched_profile(model: Seq<char>, ps: Seq<Profile>) -> Option<int> {
    match_index(normalized(model), lowered(model), normalized_names(ps), lower_case_names(ps))
}

/// A match is one of the profiles.
proof fn lemma_first_equal_bound(v: Seq<Seq<char>>, t: Seq<char>, i: int)
    requires
        0 <= i,
    ensures
        match first_equal(v, t, i) {
            Some(k) => i <= k < v.len() && v[k] == t,
            None => true,
        },
    decreases v.len() - i,
{
    if i < v.len() && v[i] != t {
        lemma_first_equal_bound(v, t, i + 1);
    }
}

/// A model is matched to one of the profiles, if to any, and to one with the very same
/// normalized name wherever there is one.
pub proof fn law_match_is_one_of_the_profiles(model: Seq<char>, ps: Seq<Profile>)
    ensures
        match matched_profile(model, ps) {
            Some(i) => 0 <= i < ps.len(),
            None => true,
        },
        forall|k: int|
            0 <= k < ps.len() && normalized((#[trigger] ps[k]).name) == normalized(model) ==> {
                &&& matched_profile(model, ps) is Some
                &&& normalized(ps[matched_profile(model, ps)->0].name) == normalized(model)
            },
{
    let names = normalized_names(ps);
    let t = normalized(model);
    lemma_first_equal_bound(names, t, 0);
    law_first_best(names.map_values(|n: Seq<char>| containment_score(t, n)));
    law_first_best(
        lower_case_names(ps).map_values(|n: Seq<char>| keyword_score(lowered(model), n)),
    );
    assert forall|k: int|
        0 <= k < ps.len() && normalized((#[trigger] ps[k]).name) == t implies {
        &&& matched_profile(model, ps) is Some
        &&& normalized(ps[matched_profile(model, ps)->0].name) == t
    } by {
        assert(names[k] == t);
        lemma_first_equal_found(names, t, 0, k);
    }
}

proof fn lemma_first_equal_found(v: Seq<Seq<char>>, t: Seq<char>, i: int, k: int)
    requires
        0 <= i <= k < v.len(),
        v[k] == t,
    ensures
        first_equal(v, t, i) is Some,
    decreases k - i,
{
    if v[i] != t {
        lemma_first_equal_found(v, t, i + 1, k);
    }
}

/// The profile that a model is matched to, by its name.
pub fn auto_match_profile<'a>(model_identifier: &str, profiles: &'a [XclbinProfile]) -> (r: Option<
    &'a XclbinProfile,
>)
    ensures
        match r {
            Some(p) => {
                let i = matched_profile(model_identifier@, profiles_of(profiles@));
                i is Some && 0 <= i->0 < profiles@.len() && *p == profiles@[i->0]
            },
            None => matched_profile(model_identifier@, profiles_of(profiles@)) is None,
        },
{
    let norm_model = normalize_key(model_identifier);
    let model_lower = to_lowercase(model_identifier);
    let ghost ps = profiles_of(profiles@);
    let mut norm_names: Vec<String> = Vec::new();
    let mut lower_names: Vec<String> = Vec::new();
    let mut i: usize = 0;
    while i < profiles.len()
        invariant
            i <= profiles@.len(),
            ps == profiles_of(profiles@),
            texts_of(norm_names@) == normalized_names(ps).take(i as int),
            texts_of(lower_names@) == lower_case_names(ps).take(i as int),
        decreases profiles@.len() - i,
    {
        let name = profiles[i].name.as_str();
        assert(ps[i as int].name == name@);
        let n = normalize_key(name);
        let l = to_lowercase(name);
        let ghost norms_before = texts_of(norm_names@);
        let ghost lowers_before = texts_of(lower_names@);
        norm_names.push(n);
        lower_names.push(l);
        proof {
            assert(texts_of(norm_names@) =~= norms_before.push(n@));
            assert(texts_of(lower_names@) =~= lowers_before.push(l@));
            assert(normalized_names(ps).take(i + 1) =~= norms_before.push(
                normalized_names(ps)[i as int],
            ));
            assert(lower_case_names(ps).take(i + 1) =~= lowers_before.push(
                lower_case_names(ps)[i as int],
            ));
        }
        i = i + 1;
    }
    assert(normalized_names(ps).take(ps.len() as int) =~= normalized_names(ps));
    assert(lower_case_names(ps).take(ps.len() as int) =~= lower_case_names(ps));
    proof {
        law_match_is_one_of_the_profiles(model_identifier@, ps);
    }
    match match_names(norm_model.as_str(), model_lower.as_str(), &norm_names, &lower_names) {
        Some(k) => Some(&profiles[k]),
        None => None,
    }
}

// ---------------------------------------------------------------------------
// Selection
// ---------------------------------------------------------------------------

/// The number that a line of input states, if it states one: digits, perhaps with a plus sign.
pub open spec fn stated_number(line: Seq<char>) -> Option<nat> {
    let t = trimmed(line);
    if t.len() > 1 && t[0] == '+' {
        parsed_digits(t.skip(1), usize::MAX as nat)
    } else {
        parsed_digits(t, usize::MAX as nat)
    }
}

/// The profile that a line of input chooses among `n`, counted from one.
pub open spec fn chosen(line: Seq<char>, n: nat) -> Option<int> {
    match stated_number(line) {
        Some(v) => if 1 <= v <= n {
            Some(v - 1)
        } else {
            None
        },
        None => None,
    }
}

/// The profile that a line of input chooses among `n`, counted from one.
fn read_choice(line: &str, n: usize) -> (r: Option<usize>)
    ensures
        match r {
            Some(i) => chosen(line@, n as nat) == Some(i as int) && i < n,
            None => chosen(line@, n as nat) is None,
        },
{
    let text = trim(line);
    let cs = chars_of(text.as_str());
    let from: usize = if cs.len() > 1 && cs[0] == '+' {
        1
    } else {
        0
    };
    assert(cs@.subrange(0, cs@.len() as int) =~= cs@);
    assert(cs@.subrange(from as int, cs@.len() as int) =~= cs@.skip(from as int));
    match parse_digits(&cs[from..cs.len()], usize::MAX as u64) {
        Some(v) => {
            if 1 <= v && v <= n as u64 {
                Some((v - 1) as usize)
            } else {
                None
            }
        },
        None => None,
    }
}

/// A number, at least two characters wide.
pub open spec fn two_wide(n: nat) -> Seq<char> {
    if decimal(n).len() < 2 {
        " "@ + decimal(n)
    } else {
        decimal(n)
    }
}

/// The first `k` lines of the menu.
pub open spec fn menu_lines(ps: Seq<Profile>, files: Seq<Seq<char>>, k: nat) -> Seq<char>
    decreases k,
{
    if k == 0 {
        Seq::empty()
    } else {
        menu_lines(ps, files, (k - 1) as nat) + "  ["@ + two_wide(k) + "] "@ + ps[k - 1].name
            + " ("@ + files[k - 1] + ")\n"@
    }
}

/// The menu: one numbered line for each profile, with its file.
pub open spec fn menu_text(ps: Seq<Profile>, files: Seq<Seq<char>>) -> Seq<char> {
    "\n========================================================\n  AMD Ryzen AI NPU: Dynamic XCLBIN Profile Selection\n========================================================\nDiscovered "@
        + decimal(ps.len())
        + " compatible hardware graph profiles in search paths.\nPlease choose the target hardware graph profile for your model:\n\n"@
        + menu_lines(ps, files, ps.len())
        + "--------------------------------------------------------\nEnter selection [1-"@
        + decimal(ps.len()) + "]: "@
}

/// The menu of profiles, with the file name of each.
pub fn selection_menu(profiles: &[XclbinProfile], file_names: &[String]) -> (r: String)
    requires
        profiles@.len() == file_names@.len(),
    ensures
        r@ == menu_text(profiles_of(profiles@), texts_of(file_names@)),
{
    let ghost ps = profiles_of(profiles@);
    let ghost files = texts_of(file_names@);
    let count = decimal_text(profiles.len() as u64);
    let mut lines = String::new();
    let mut i: usize = 0;
    while i < profiles.len()
        invariant
            i <= profiles@.len(),
            profiles@.len() == file_names@.len(),
            ps == profiles_of(profiles@),
            files == texts_of(file_names@),
            lines@ == menu_lines(ps, files, i as nat),
        decreases profiles@.len() - i,
    {
        assert(profiles@.len() == profiles.len());
        let digits = decimal_text(i as u64 + 1);
        let number = if chars_of(digits.as_str()).len() < 2 {
            " ".to_owned().concat(digits.as_str())
        } else {
            digits
        };
        assert(ps[i as int].name == profiles@[i as int].name@);
        assert(files[i as int] == file_names@[i as int]@);
        lines.append("  [");
        lines.append(number.as_str());
        lines.append("] ");
        lines.append(profiles[i].name.as_str());
        lines.append(" (");
        lines.append(file_names[i].as_str());
        lines.append(")\n");
        i = i + 1;
    }
    "\n========================================================\n  AMD Ryzen AI NPU: Dynamic XCLBIN Profile Selection\n========================================================\nDiscovered ".to_owned().concat(
    count.as_str()).concat(
        " compatible hardware graph profiles in search paths.\nPlease choose the target hardware graph profile for your model:\n\n",
    ).concat(lines.as_str()).concat(
        "--------------------------------------------------------\nEnter selection [1-",
    ).concat(count.as_str()).concat("]: ")
}

/// The profile that a line of input chooses; the first one where it chooses none.
pub fn interactive_select_profile<'a>(profiles: &'a [XclbinProfile], line: &str) -> (r: Result<
    &'a XclbinProfile,
    ContainerError,
>)
    ensures
        match r {
            Ok(p) => {
                &&& profiles@.len() > 0
                &&& match chosen(line@, profiles@.len()) {
                    Some(i) => *p == profiles@[i],
                    None => *p == profiles@[0],
                }
            },
            Err(e) => profiles@.len() == 0 && e@ == ContainerFault::Io(
                IoFaultView::NotFound("No XCLBIN profiles found in search paths"@),
            ),
        },
{
    if profiles.len() == 0 {
        return Err(
            ContainerError::Io(
                IoFault::NotFound("No XCLBIN profiles found in search paths".to_owned()),
            ),
        );
    }
    match read_choice(line, profiles.len()) {
        Some(i) => Ok(&profiles[i]),
        None => Ok(&profiles[0]),
    }
}

/// What is said where a line of input chooses nothing.
pub fn selection_notice(profiles: &[XclbinProfile], line: &str) -> (r: Option<String>)
    requires
        profiles@.len() > 0,
    ensures
        r is Some <==> chosen(line@, profiles@.len()) is None,
        r is Some ==> r->0@ == "No valid selection entered. Defaulting to profile [1]: "@
            + profiles@[0].name@,
{
    match read_choice(line, profiles.len()) {
        Some(_) => None,
        None => Some(
            "No valid selection entered. Defaulting to profile [1]: ".to_owned().concat(
                profiles[0].name.as_str(),
            ),
        ),
    }
}

// ---------------------------------------------------------------------------
// Resolution
// ---------------------------------------------------------------------------

/// What resolving comes to.
#[derive(Debug)]
pub enum Resolution {
    /// This profile.
    Chosen(XclbinProfile),
    /// The user has to be asked.
    Ask,
}

/// Families by which a profile is chosen where nobody can be asked.
pub open spec fn fallback_families() -> Seq<Seq<char>> {
    seq![
        "deepseek"@,
        "qwen"@,
        "gemma"@,
        "llama"@,
        "phi"@,
        "mistral"@,
        "lfm"@,
        "whisper"@,
        "gpt"@,
    ]
}

/// The first profile, from `i` on, whose lower-cased name shares a family with the model's.
pub open spec fn first_related(model_lower: Seq<char>, names: Seq<Seq<char>>, i: int) -> Option<int>
    decreases names.len() - i,
{
    if i < 0 || i >= names.len() {
        None
    } else if common_words(fallback_families(), model_lower, names[i], 9) > 0 {
        Some(i)
    } else {
        first_related(model_lower, names, i + 1)
    }
}

/// The profile that is chosen where nobody can be asked: the first related one, else the first.
pub open spec fn unattended_choice(model_lower: Seq<char>, names: Seq<Seq<char>>) -> int {
    match first_related(model_lower, names, 0) {
        Some(i) => i,
        None => 0,
    }
}

/// Resolves the profile for a model: a given XCLBIN goes first, then a match by name. Where
/// there is none the user is asked, if there is one.
pub fn resolve_xclbin_profile(
    model_identifier: &str,
    override_profile: Option<XclbinProfile>,
    profiles: &[XclbinProfile],
    interactive: bool,
) -> (r: Result<Resolution, ContainerError>)
    ensures
        match override_profile {
            Some(p) => r is Ok && r->Ok_0 == Resolution::Chosen(p),
            None => if profiles@.len() == 0 {
                r is Err && r->Err_0@ == ContainerFault::Io(
                    IoFaultView::NotFound("No XCLBIN profiles found in search directories"@),
                )
            } else {
                let ps = profiles_of(profiles@);
                match matched_profile(model_identifier@, ps) {
                    Some(i) => r is Ok && r->Ok_0 is Chosen && r->Ok_0->Chosen_0@ == ps[i],
                    None => if interactive {
                        r is Ok && r->Ok_0 is Ask
                    } else {
                        r is Ok && r->Ok_0 is Chosen && r->Ok_0->Chosen_0@
                            == ps[unattended_choice(
                            lowered(model_identifier@),
                            lower_case_names(ps),
                        )]
                    },
                }
            },
        },
{
    match override_profile {
        Some(p) => {
            return Ok(Resolution::Chosen(p));
        },
        None => {},
    }
    if profiles.len() == 0 {
        return Err(
            ContainerError::Io(
                IoFault::NotFound("No XCLBIN profiles found in search directories".to_owned()),
            ),
        );
    }
    let ghost ps = profiles_of(profiles@);
    match auto_match_profile(model_identifier, profiles) {
        Some(p) => {
            return Ok(Resolution::Chosen(p.duplicate()));
        },
        None => {},
    }
    if interactive {
        return Ok(Resolution::Ask);
    }
    let model_lower = to_lowercase(model_identifier);
    let terms: Vec<&str> = vec![
        "deepseek", "qwen", "gemma", "llama", "phi", "mistral", "lfm", "whisper", "gpt",
    ];
    assert(terms@.map_values(|s: &str| s@) =~= fallback_families());
    let ghost names = lower_case_names(ps);
    let mut i: usize = 0;
    while i < profiles.len()
        invariant
            i <= profiles@.len(),
            profiles@.len() > 0,
            ps == profiles_of(profiles@),
            names == lower_case_names(ps),
            terms@.len() == 9,
            terms@.map_values(|s: &str| s@) == fallback_families(),
            model_lower@ == lowered(model_identifier@),
            matched_profile(model_identifier@, ps) is None,
            override_profile is None,
            !interactive,
            first_related(model_lower@, names, i as int) == first_related(model_lower@, names, 0),
        decreases profiles@.len() - i,
    {
        assert(ps[i as int].name == profiles@[i as int].name@);
        let name = to_lowercase(profiles[i].name.as_str());
        if count_common(&terms, model_lower.as_str(), name.as_str()) > 0 {
            return Ok(Resolution::Chosen(profiles[i].duplicate()));
        }
        i = i + 1;
    }
    assert(ps[0] == profiles@[0]@);
    Ok(Resolution::Chosen(profiles[0].duplicate()))
}

// ---------------------------------------------------------------------------
// Laws of discovery
// ---------------------------------------------------------------------------

/// No two profiles have one name.
pub open spec fn names_differ(ps: Seq<Profile>) -> bool {
    forall|i: int, j: int| 0 <= i < j < ps.len() ==> ps[i].name != ps[j].name
}

proof fn lemma_scan_keeps_names_apart(
    ps: Seq<Profile>,
    entries: Seq<DirEntry>,
    i: int,
    depth: nat,
)
    requires
        names_differ(ps),
    ensures
        names_differ(scanned(ps, entries, i, depth)),
        ps.len() <= scanned(ps, entries, i, depth).len(),
        scanned(ps, entries, i, depth).take(ps.len() as int) == ps,
    decreases MAX_DEPTH + 1 - depth, entries.len() - i,
{
    if depth > MAX_DEPTH || i < 0 || i >= entries.len() {
        assert(ps.take(ps.len() as int) =~= ps);
    } else {
        let e = entries[i];
        let next = if e.is_dir {
            match directory_xclbin(e) {
                Some(x) => offered(ps, Profile { name: e.name@, dir: e.path@, path: x }),
                None => scanned(ps, e.children@, 0, depth + 1),
            }
        } else if e.is_file && e.is_xclbin {
            offered(ps, Profile { name: e.stem@, dir: e.parent@, path: e.path@ })
        } else {
            ps
        };
        if e.is_dir && directory_xclbin(e) is None {
            lemma_scan_keeps_names_apart(ps, e.children@, 0, depth + 1);
        } else {
            assert(next.take(ps.len() as int) =~= ps);
        }
        lemma_scan_keeps_names_apart(next, entries, i + 1, depth);
        let all = scanned(next, entries, i + 1, depth);
        assert(all.take(ps.len() as int) =~= all.take(next.len() as int).take(ps.len() as int));
    }
}

/// Profiles that are discovered have different names, and a profile that was found stays: what
/// is searched later adds to it, and an earlier search path goes before a later one.
pub proof fn law_discovery_keeps_first_names(roots: Seq<Vec<DirEntry>>, j: nat, k: nat)
    requires
        j <= k,
    ensures
        names_differ(scanned_roots(roots, k)),
        scanned_roots(roots, j).len() <= scanned_roots(roots, k).len(),
        scanned_roots(roots, k).take(scanned_roots(roots, j).len() as int) == scanned_roots(
            roots,
            j,
        ),
    decreases k,
{
    let all = scanned_roots(roots, k);
    if k == 0 {
        assert(all.take(0) =~= all);
    } else {
        let before = scanned_roots(roots, (k - 1) as nat);
        law_discovery_keeps_first_names(roots, if j == k { (k - 1) as nat } else { j }, (k - 1) as nat);
        lemma_scan_keeps_names_apart(before, roots[k - 1]@, 0, 0);
        if j == k {
            assert(all.take(all.len() as int) =~= all);
        } else {
            let first = scanned_roots(roots, j);
            assert(all.take(first.len() as int) =~= all.take(before.len() as int).take(
                first.len() as int,
            ));
        }
    }
}

/// An entry that holds an XCLBIN is found: after its search path was searched there is a
/// profile with its name.
pub proof fn law_added_profile_is_found(
    ps: Seq<Profile>,
    entries: Seq<DirEntry>,
    i: int,
    k: int,
    depth: nat,
)
    requires
        names_differ(ps),
        0 <= i <= k < entries.len(),
        depth <= MAX_DEPTH,
        entries[k].is_dir && directory_xclbin(entries[k]) is Some || !entries[k].is_dir
            && entries[k].is_file && entries[k].is_xclbin,
    ensures
        has_name(
            scanned(ps, entries, i, depth),
            if entries[k].is_dir {
                entries[k].name@
            } else {
                entries[k].stem@
            },
        ),
    decreases k - i,
{
    let e = entries[i];
    let next = if e.is_dir {
        match directory_xclbin(e) {
            Some(x) => offered(ps, Profile { name: e.name@, dir: e.path@, path: x }),
            None => scanned(ps, e.children@, 0, depth + 1),
        }
    } else if e.is_file && e.is_xclbin {
        offered(ps, Profile { name: e.stem@, dir: e.parent@, path: e.path@ })
    } else {
        ps
    };
    if e.is_dir && directory_xclbin(e) is None {
        lemma_scan_keeps_names_apart(ps, e.children@, 0, depth + 1);
    }
    if i < k {
        law_added_profile_is_found(next, entries, i + 1, k, depth);
    } else {
        let name = if e.is_dir {
            e.name@
        } else {
            e.stem@
        };
        if !has_name(ps, name) {
            assert(next[next.len() - 1].name == name);
        }
        assert(has_name(next, name));
        lemma_scan_keeps_names_apart(next, entries, i + 1, depth);
        let all = scanned(next, entries, i + 1, depth);
        let w = choose|w: int| 0 <= w < next.len() && #[trigger] next[w].name == name;
        assert(all.take(next.len() as int)[w] == next[w]);
        assert(all[w].name == name);
    }
}

/// The profile that an entry is by itself.
pub open spec fn entry_profile(e: DirEntry) -> Option<Profile> {
    if e.is_dir {
        match directory_xclbin(e) {
            Some(x) => Some(Profile { name: e.name@, dir: e.path@, path: x }),
            None => None,
        }
    } else if e.is_file && e.is_xclbin {
        Some(Profile { name: e.stem@, dir: e.parent@, path: e.path@ })
    } else {
        None
    }
}

/// Entries are searched one after the other.
proof fn lemma_scan_in_two_parts(
    ps: Seq<Profile>,
    entries: Seq<DirEntry>,
    i: int,
    k: int,
    depth: nat,
)
    requires
        0 <= i <= k <= entries.len(),
        depth <= MAX_DEPTH,
    ensures
        scanned(ps, entries, i, depth) == scanned(
            scanned(ps, entries.take(k), i, depth),
            entries,
            k,
            depth,
        ),
    decreases k - i,
{
    if i < k {
        let e = entries[i];
        assert(entries.take(k)[i] == e);
        let next = if e.is_dir {
            match directory_xclbin(e) {
                Some(x) => offered(ps, Profile { name: e.name@, dir: e.path@, path: x }),
                None => scanned(ps, e.children@, 0, depth + 1),
            }
        } else if e.is_file && e.is_xclbin {
            offered(ps, Profile { name: e.stem@, dir: e.parent@, path: e.path@ })
        } else {
            ps
        };
        lemma_scan_in_two_parts(next, entries, i + 1, k, depth);
    }
}

/// The first profile with a name keeps its own path: where nothing that was searched before an
/// entry has its name, the entry's own profile, with its directory and its path, is found.
pub proof fn law_first_with_a_name_keeps_its_path(
    ps: Seq<Profile>,
    entries: Seq<DirEntry>,
    k: int,
    depth: nat,
)
    requires
        names_differ(ps),
        0 <= k < entries.len(),
        depth <= MAX_DEPTH,
        entry_profile(entries[k]) is Some,
        !has_name(scanned(ps, entries.take(k), 0, depth), entry_profile(entries[k])->0.name),
    ensures
        scanned(ps, entries, 0, depth).contains(entry_profile(entries[k])->0),
        forall|i: int|
            0 <= i < scanned(ps, entries, 0, depth).len() && (#[trigger] scanned(
                ps,
                entries,
                0,
                depth,
            )[i]).name == entry_profile(entries[k])->0.name ==> scanned(ps, entries, 0, depth)[i]
                == entry_profile(entries[k])->0,
{
    let p = entry_profile(entries[k])->0;
    let before = scanned(ps, entries.take(k), 0, depth);
    let next = before.push(p);
    let all = scanned(ps, entries, 0, depth);
    lemma_scan_in_two_parts(ps, entries, 0, k, depth);
    lemma_scan_keeps_names_apart(ps, entries.take(k), 0, depth);
    lemma_scan_keeps_names_apart(ps, entries, 0, depth);
    assert(names_differ(next));
    assert(all == scanned(next, entries, k + 1, depth));
    lemma_scan_keeps_names_apart(next, entries, k + 1, depth);
    let at = before.len() as int;
    assert(all.take(next.len() as int)[at] == p);
    assert(all[at] == p);
    assert forall|i: int| 0 <= i < all.len() && (#[trigger] all[i]).name == p.name implies all[i]
        == p by {
        if i < at {
            assert(all[i].name != all[at].name);
        } else if i > at {
            assert(all[at].name != all[i].name);
        }
    }
}

/// The first profile with a name is discovered with its own path: an entry of a search path whose
/// name neither an earlier search path nor an earlier entry has.
pub proof fn law_first_profile_is_discovered(
    roots: Seq<Vec<DirEntry>>,
    root: nat,
    k: int,
    found: Seq<Profile>,
)
    requires
        root < roots.len(),
        0 <= k < roots[root as int]@.len(),
        entry_profile(roots[root as int]@[k]) is Some,
        !has_name(
            scanned(scanned_roots(roots, root), roots[root as int]@.take(k), 0, 0),
            entry_profile(roots[root as int]@[k])->0.name,
        ),
        found.to_multiset() == scanned_roots(roots, roots.len()).to_multiset(),
    ensures
        found.contains(entry_profile(roots[root as int]@[k])->0),
{
    let p = entry_profile(roots[root as int]@[k])->0;
    let here = scanned_roots(roots, root + 1);
    let all = scanned_roots(roots, roots.len());
    law_discovery_keeps_first_names(roots, root, root);
    law_first_with_a_name_keeps_its_path(
        scanned_roots(roots, root),
        roots[root as int]@,
        k,
        0,
    );
    law_discovery_keeps_first_names(roots, root + 1, roots.len());
    assert(here == scanned(scanned_roots(roots, root), roots[root as int]@, 0, 0));
    let w = choose|w: int| 0 <= w < here.len() && here[w] == p;
    assert(all.take(here.len() as int)[w] == p);
    assert(all[w] == p);
    vstd::seq_lib::to_multiset_contains(all, p);
    vstd::seq_lib::to_multiset_contains(found, p);
}

/// The path of an XCLBIN file.
pub open spec fn is_xclbin_path(path: Seq<char>) -> bool {
    has_suffix(path, ".xclbin"@)
}

/// Every entry that is taken for an XCLBIN file, and every kernel file, has the path of one: those
/// of a directory at a depth, and those below it as far as they are searched.
pub open spec fn marks_xclbins(entries: Seq<DirEntry>, depth: nat) -> bool
    decreases MAX_DEPTH + 2 - depth,
{
    depth <= MAX_DEPTH + 1 ==> forall|i: int|
        0 <= i < entries.len() ==> {
            let e = #[trigger] entries[i];
            &&& e.is_file && e.is_xclbin ==> is_xclbin_path(e.path@)
            &&& e.kernel is Some ==> is_xclbin_path(e.kernel->0@)
            &&& depth <= MAX_DEPTH ==> marks_xclbins(e.children@, depth + 1)
        }
}

/// Every profile has the path of an XCLBIN file.
pub open spec fn all_xclbin_paths(ps: Seq<Profile>) -> bool {
    forall|i: int| 0 <= i < ps.len() ==> is_xclbin_path((#[trigger] ps[i]).path)
}

proof fn lemma_first_xclbin_path(entries: Seq<DirEntry>, i: int, depth: nat)
    requires
        marks_xclbins(entries, depth),
        depth <= MAX_DEPTH + 1,
        0 <= i,
    ensures
        first_xclbin(entries, i) is Some ==> is_xclbin_path(first_xclbin(entries, i)->0),
    decreases entries.len() - i,
{
    if i < entries.len() && !(entries[i].is_file && entries[i].is_xclbin) {
        lemma_first_xclbin_path(entries, i + 1, depth);
    }
}

proof fn lemma_scan_finds_xclbins(
    ps: Seq<Profile>,
    entries: Seq<DirEntry>,
    i: int,
    depth: nat,
)
    requires
        all_xclbin_paths(ps),
        marks_xclbins(entries, depth),
    ensures
        all_xclbin_paths(scanned(ps, entries, i, depth)),
    decreases MAX_DEPTH + 1 - depth, entries.len() - i,
{
    if depth <= MAX_DEPTH && 0 <= i < entries.len() {
        let e = entries[i];
        let next = if e.is_dir {
            match directory_xclbin(e) {
                Some(x) => offered(ps, Profile { name: e.name@, dir: e.path@, path: x }),
                None => scanned(ps, e.children@, 0, depth + 1),
            }
        } else if e.is_file && e.is_xclbin {
            offered(ps, Profile { name: e.stem@, dir: e.parent@, path: e.path@ })
        } else {
            ps
        };
        if e.is_dir {
            lemma_first_xclbin_path(e.children@, 0, depth + 1);
            if directory_xclbin(e) is None {
                lemma_scan_finds_xclbins(ps, e.children@, 0, depth + 1);
            }
        }
        lemma_scan_finds_xclbins(next, entries, i + 1, depth);
    }
}

/// Every discovered path is that of an XCLBIN file, where the entries that are taken for one and
/// the kernel files are.
pub proof fn law_discovered_paths_are_xclbins(roots: Seq<Vec<DirEntry>>, found: Seq<Profile>)
    requires
        forall|r: int| 0 <= r < roots.len() ==> marks_xclbins((#[trigger] roots[r])@, 0),
        found.to_multiset() == scanned_roots(roots, roots.len()).to_multiset(),
    ensures
        all_xclbin_paths(found),
{
    let all = scanned_roots(roots, roots.len());
    lemma_roots_hold_xclbins(roots, roots.len());
    assert forall|i: int| 0 <= i < found.len() implies is_xclbin_path(
        (#[trigger] found[i]).path,
    ) by {
        assert(found.contains(found[i]));
        vstd::seq_lib::to_multiset_contains(found, found[i]);
        vstd::seq_lib::to_multiset_contains(all, found[i]);
        let w = choose|w: int| 0 <= w < all.len() && all[w] == found[i];
        assert(is_xclbin_path(all[w].path));
    }
}

proof fn lemma_roots_hold_xclbins(roots: Seq<Vec<DirEntry>>, k: nat)
    requires
        k <= roots.len(),
        forall|r: int| 0 <= r < roots.len() ==> marks_xclbins((#[trigger] roots[r])@, 0),
    ensures
        all_xclbin_paths(scanned_roots(roots, k)),
    decreases k,
{
    if k > 0 {
        lemma_roots_hold_xclbins(roots, (k - 1) as nat);
        lemma_scan_finds_xclbins(
            scanned_roots(roots, (k - 1) as nat),
            roots[k - 1]@,
            0,
            0,
        );
    }
}

/// Each kernel file has the name of an XCLBIN file.
pub proof fn law_kernels_are_xclbins()
    ensures
        is_xclbin_path(LAYER_KERNEL@),
        is_xclbin_path(MM_KERNEL@),
        is_xclbin_path(ATTN_KERNEL@),
{
    reveal_strlit("layer.xclbin");
    reveal_strlit("mm.xclbin");
    reveal_strlit("attn.xclbin");
    reveal_strlit(".xclbin");
    assert(LAYER_KERNEL@.subrange(5, 12) =~= ".xclbin"@);
    assert(MM_KERNEL@.subrange(2, 9) =~= ".xclbin"@);
    assert(ATTN_KERNEL@.subrange(4, 11) =~= ".xclbin"@);
}

} // verus!
