use std::collections::BTreeSet;

use vstd::prelude::*;

verus! {

/// The strings of a set, as character sequences.
pub open spec fn texts(s: Set<String>) -> Set<Seq<char>> {
    s.map(|x: String| x@)
}

/// The order of `String`: lexicographic, character by character.
pub open spec fn text_less(a: Seq<char>, b: Seq<char>) -> bool {
    exists|k: int|
        0 <= k <= a.len() && k < b.len() && a.subrange(0, k) == b.subrange(0, k) && (k == a.len()
            || (a[k] as u32) < (b[k] as u32))
}

/// `e` lists the elements of `s`, each once, in ascending order.
pub open spec fn enumerates(e: Seq<Seq<char>>, s: Set<Seq<char>>) -> bool {
    &&& e.to_set() == s
    &&& forall|i: int, j: int| 0 <= i < j < e.len() ==> text_less(e[i], e[j])
}

/// The views of a vector of strings.
pub open spec fn views(v: Seq<String>) -> Seq<Seq<char>> {
    v.map_values(|x: String| x@)
}

/// Relies on `BTreeSet::iter`: it visits every element once, in ascending
/// order, and `String` is ordered lexicographically. (vstd's own statement
/// covers only keys whose order it knows, which `String` is not.)
#[verifier::external_body]
pub(crate) fn sorted_entries(s: &BTreeSet<String>) -> (r: Vec<String>)
    ensures
        enumerates(views(r@), texts(s@)),
{
    s.iter().cloned().collect()
}

/// Relies on `BTreeSet::insert`: afterwards the set holds the key besides
/// what it held before. (vstd's own statement covers only keys whose order
/// it knows, which `String` is not.)
#[verifier::external_body]
fn insert_entry(s: &mut BTreeSet<String>, k: String)
    ensures
        final(s)@ == old(s)@.insert(k),
{
    s.insert(k);
}

/// The file types accepted when the configuration names none.
pub open spec fn default_file_types() -> Seq<Seq<char>> {
    seq![
        "azw"@, "azw3"@, "azw4"@, "mobi"@, "cbz"@, "cbr"@, "cb7"@, "cbc"@, "chm"@, "djvu"@,
        "docx"@, "epub"@, "fb2"@, "fbz"@, "html"@, "htmlz"@, "lit"@, "lrf"@, "odt"@, "pdf"@,
        "prc"@, "pdb"@, "pml"@, "rb"@, "rtf"@, "snb"@, "tcr"@, "txtz"@,
    ]
}

/// The e-book and document extensions accepted by default.
pub fn default_accepted_file_types() -> (r: BTreeSet<String>)
    ensures
        texts(r@) == default_file_types().to_set(),
{
    let names: [&str; 28] = [
        "azw", "azw3", "azw4", "mobi", "cbz", "cbr", "cb7", "cbc", "chm", "djvu", "docx", "epub",
        "fb2", "fbz", "html", "htmlz", "lit", "lrf", "odt", "pdf", "prc", "pdb", "pml", "rb", "rtf",
        "snb", "tcr", "txtz",
    ];
    assert(names@.map_values(|s: &str| s@) =~= default_file_types());
    let mut r: BTreeSet<String> = BTreeSet::new();
    let mut i: usize = 0;
    while i < 28
        invariant
            0 <= i <= 28,
            names@.len() == 28,
            texts(r@) =~= names@.subrange(0, i as int).map_values(|s: &str| s@).to_set(),
        decreases 28 - i,
    {
        let ghost before = r@;
        let k = String::from_str(names[i]);
        insert_entry(&mut r, k);
        assert forall|x: Seq<char>| texts(r@).contains(x) <==> texts(before).insert(k@).contains(
            x,
        ) by {
            if texts(before).contains(x) {
                let y = choose|y: String| before.contains(y) && y@ == x;
                assert(r@.contains(y));
            }
            if x == k@ {
                assert(r@.contains(k));
            }
        }
        assert(names@.subrange(0, i + 1).map_values(|s: &str| s@) =~= names@.subrange(
            0,
            i as int,
        ).map_values(|s: &str| s@).push(names@[i as int]@));
        assert(texts(r@) =~= texts(before).insert(names@[i as int]@));
        proof {
            let prev = names@.subrange(0, i as int).map_values(|s: &str| s@);
            assert(prev.push(names@[i as int]@).to_set() =~= prev.to_set().insert(
                names@[i as int]@,
            )) by {
                assert forall|x: Seq<char>|
                    prev.push(names@[i as int]@).to_set().contains(x) implies prev.to_set().insert(
                    names@[i as int]@,
                ).contains(x) by {
                    let j = choose|j: int|
                        0 <= j < prev.len() + 1 && prev.push(names@[i as int]@)[j] == x;
                    if j < prev.len() {
                        assert(prev[j] == x);
                    }
                }
                assert forall|x: Seq<char>|
                    prev.to_set().insert(names@[i as int]@).contains(x) implies prev.push(
                    names@[i as int]@,
                ).to_set().contains(x) by {
                    if x == names@[i as int]@ {
                        assert(prev.push(names@[i as int]@)[prev.len() as int] == x);
                    } else {
                        let j = choose|j: int| 0 <= j < prev.len() && prev[j] == x;
                        assert(prev.push(names@[i as int]@)[j] == x);
                    }
                }
            }
        }
        i = i + 1;
    }
    assert(names@.subrange(0, 28) =~= names@);
    r
}

/// The directory that receives attachments when the configuration names none.
pub fn default_attachments_dir() -> (r: String)
    ensures
        r@ == "/attachments"@,
{
    String::from_str("/attachments")
}

/// The settings that decide which messages are handled and how.
///
/// The credentials used to open a session stay with the program that opens
/// it; this value holds what the decisions read.
pub struct AppConfig {
    /// Host name of the mail server.
    pub imap_server: String,
    /// Account name, also the default target address.
    pub username: String,
    /// The address that messages must be sent to, when it is not the account.
    pub target_address: Option<String>,
    /// Sender addresses whose messages are handled.
    pub whitelist: BTreeSet<String>,
    /// Where attachments are written.
    pub attachments_dir: String,
    /// Lower-case extensions, without dot, of the attachments that are kept.
    pub accepted_file_types: BTreeSet<String>,
}

impl AppConfig {
    /// The address that messages must be sent to.
    pub open spec fn target_view(&self) -> Seq<char> {
        match self.target_address {
            Some(t) => t@,
            None => self.username@,
        }
    }

    /// The target address if one is set, else the account name.
    pub fn effective_target(&self) -> (r: &String)
        ensures
            r@ == self.target_view(),
    {
        match &self.target_address {
            Some(t) => t,
            None => &self.username,
        }
    }
}

impl Default for AppConfig {
    fn default() -> (r: AppConfig)
        ensures
            r.imap_server@ == Seq::<char>::empty(),
            r.username@ == Seq::<char>::empty(),
            r.target_address is None,
            r.whitelist@ == Set::<String>::empty(),
            r.attachments_dir@ == "/attachments"@,
            texts(r.accepted_file_types@) == default_file_types().to_set(),
    {
        AppConfig {
            imap_server: String::new(),
            username: String::new(),
            target_address: None,
            whitelist: BTreeSet::new(),
            attachments_dir: default_attachments_dir(),
            accepted_file_types: default_accepted_file_types(),
        }
    }
}

} // verus!
