//! Expand and hide flags: which related entities to attach to an entity that
//! is read, and which of its sub-resources to leave out.
//!
//! A flag set is written as the names of its flags with commas between them;
//! the empty text is the empty set. A name that is not a flag's is refused.

use vstd::prelude::*;
use vstd::string::*;
use crate::errors::{ErrorView, FatcatError};
use crate::text::{has_no_comma, join_commas, lemma_split_join, range_is, split_commas, to_chars};

verus! {

/// Place of a name in a table of names, if it is there.
pub open spec fn name_index(table: Seq<Seq<char>>, name: Seq<char>, from: int) -> Option<int>
    decreases table.len() - from,
{
    if from < 0 || from >= table.len() {
        None
    } else if table[from] == name {
        Some(from)
    } else {
        name_index(table, name, from + 1)
    }
}

/// The flags that a list of names sets, one truth value per name of the
/// table; `None` where a name is not in the table.
pub open spec fn bits_of_names(table: Seq<Seq<char>>, names: Seq<Seq<char>>) -> Option<Seq<bool>>
    decreases names.len(),
{
    if names.len() == 0 {
        Some(Seq::new(table.len(), |i: int| false))
    } else {
        match (bits_of_names(table, names.drop_last()), name_index(table, names.last(), 0)) {
            (Some(bits), Some(i)) => Some(bits.update(i, true)),
            _ => None,
        }
    }
}

/// The names of the flags that are set among the first `n` of the table, in
/// the table's order.
pub open spec fn names_of_bits(table: Seq<Seq<char>>, bits: Seq<bool>, n: nat) -> Seq<Seq<char>>
    decreases n,
{
    if n == 0 {
        Seq::empty()
    } else {
        let before = names_of_bits(table, bits, (n - 1) as nat);
        if bits[n - 1] {
            before.push(table[n - 1])
        } else {
            before
        }
    }
}

/// The flags that a text sets.
pub open spec fn parse_flag_text(table: Seq<Seq<char>>, s: Seq<char>) -> Option<Seq<bool>> {
    if s.len() == 0 {
        Some(Seq::new(table.len(), |i: int| false))
    } else {
        bits_of_names(table, split_commas(s))
    }
}

/// The text of a flag set.
pub open spec fn flag_text(table: Seq<Seq<char>>, bits: Seq<bool>) -> Seq<char> {
    join_commas(names_of_bits(table, bits, table.len()))
}

/// A table whose names can be told apart in a text: none is empty, none holds
/// a comma, no two are the same.
pub open spec fn table_ok(table: Seq<Seq<char>>) -> bool {
    &&& forall|i: int| 0 <= i < table.len() ==> (#[trigger] table[i]).len() > 0 && has_no_comma(table[i])
    &&& forall|i: int, j: int|
        0 <= i < j < table.len() ==> #[trigger] table[i] != #[trigger] table[j]
}

proof fn lemma_name_index(table: Seq<Seq<char>>, i: int, from: int)
    requires
        table_ok(table),
        0 <= from <= i < table.len(),
    ensures
        name_index(table, table[i], from) == Some(i),
    decreases i - from,
{
    if from < i {
        lemma_name_index(table, i, from + 1);
    }
}

proof fn lemma_names_of_bits(table: Seq<Seq<char>>, bits: Seq<bool>, n: nat)
    requires
        table_ok(table),
        bits.len() == table.len(),
        n <= table.len(),
    ensures
        bits_of_names(table, names_of_bits(table, bits, n)) == Some(
            Seq::new(table.len(), |i: int| i < n && bits[i]),
        ),
        forall|k: int|
            0 <= k < names_of_bits(table, bits, n).len() ==> (#[trigger] names_of_bits(
                table,
                bits,
                n,
            )[k]).len() > 0 && has_no_comma(names_of_bits(table, bits, n)[k]),
        names_of_bits(table, bits, n).len() == 0 ==> forall|i: int| 0 <= i < n ==> !bits[i],
    decreases n,
{
    if n == 0 {
        assert(Seq::new(table.len(), |i: int| false) =~= Seq::new(
            table.len(),
            |i: int| i < n && bits[i],
        ));
    } else {
        let m = (n - 1) as nat;
        lemma_names_of_bits(table, bits, m);
        let before = names_of_bits(table, bits, m);
        let prev = Seq::new(table.len(), |i: int| i < m && bits[i]);
        let want = Seq::new(table.len(), |i: int| i < n && bits[i]);
        if bits[n - 1] {
            lemma_name_index(table, n - 1, 0);
            assert(before.push(table[n - 1]).drop_last() =~= before);
            assert(prev.update(n - 1, true) =~= want);
        } else {
            assert(prev =~= want);
        }
    }
}

/// Reading the text of a flag set gives the flag set back.
pub proof fn lemma_flag_text_roundtrip(table: Seq<Seq<char>>, bits: Seq<bool>)
    requires
        table_ok(table),
        bits.len() == table.len(),
    ensures
        parse_flag_text(table, flag_text(table, bits)) == Some(bits),
{
    let names = names_of_bits(table, bits, table.len());
    lemma_names_of_bits(table, bits, table.len());
    assert(Seq::new(table.len(), |i: int| i < table.len() && bits[i]) =~= bits);
    if names.len() == 0 {
        assert(Seq::new(table.len(), |i: int| false) =~= bits);
    } else {
        lemma_split_join(names);
        lemma_join_nonempty(names);
    }
}

proof fn lemma_join_nonempty(parts: Seq<Seq<char>>)
    requires
        parts.len() >= 1,
        forall|i: int| 0 <= i < parts.len() ==> (#[trigger] parts[i]).len() > 0,
    ensures
        join_commas(parts).len() > 0,
{
    if parts.len() > 1 {
        assert(parts.last().len() > 0);
    } else {
        assert(parts[0].len() > 0);
    }
}


/// The table of names that a list of name literals stands for.
pub open spec fn table_of(names: Seq<&'static str>) -> Seq<Seq<char>> {
    Seq::new(names.len(), |i: int| names[i]@)
}

/// Finds the name that the characters of `v` from `start` up to `end` spell.
fn find_name(v: &Vec<char>, start: usize, end: usize, names: &Vec<&'static str>) -> (r: Option<usize>)
    requires
        start <= end <= v@.len(),
    ensures
        match r {
            Some(i) => i < names@.len() && name_index(
                table_of(names@),
                v@.subrange(start as int, end as int),
                0,
            ) == Some(i as int),
            None => name_index(table_of(names@), v@.subrange(start as int, end as int), 0) is None,
        },
{
    let ghost table = table_of(names@);
    let ghost tok = v@.subrange(start as int, end as int);
    let mut i: usize = 0;
    while i < names.len()
        invariant
            i <= names@.len(),
            start <= end <= v@.len(),
            table == table_of(names@),
            tok == v@.subrange(start as int, end as int),
            name_index(table, tok, 0) == name_index(table, tok, i as int),
        decreases names@.len() - i,
    {
        if range_is(v, start, end, names[i]) {
            return Some(i);
        }
        i += 1;
    }
    None
}

/// Reads a flag set from its text: one truth value per name, or `None` where
/// a piece of the text is not a name.
pub(crate) fn parse_flag_bits(s: &str, names: &Vec<&'static str>) -> (r: Option<Vec<bool>>)
    ensures
        match r {
            Some(b) => parse_flag_text(table_of(names@), s@) == Some(b@),
            None => parse_flag_text(table_of(names@), s@) is None,
        },
{
    let ghost table = table_of(names@);
    let mut bits: Vec<bool> = Vec::new();
    let mut k: usize = 0;
    while k < names.len()
        invariant
            k <= names@.len(),
            bits@.len() == k,
            forall|j: int| 0 <= j < k ==> !bits@[j],
        decreases names@.len() - k,
    {
        bits.push(false);
        k += 1;
    }
    assert(bits@ =~= Seq::new(table.len(), |i: int| false));
    let v = to_chars(s);
    if v.len() == 0 {
        return Some(bits);
    }
    let mut bad = false;
    let mut start: usize = 0;
    let mut i: usize = 0;
    let ghost mut done: Seq<Seq<char>> = Seq::empty();
    assert(v@.subrange(0, 0) =~= Seq::<char>::empty());
    assert(split_commas(v@.subrange(0, 0)) =~= done.push(v@.subrange(0, 0)));
    while i < v.len()
        invariant
            start <= i <= v@.len(),
            table == table_of(names@),
            bits@.len() == names@.len(),
            split_commas(v@.subrange(0, i as int)) == done.push(v@.subrange(start as int, i as int)),
            bits_of_names(table, done) == (if bad {
                None
            } else {
                Some(bits@)
            }),
        decreases v@.len() - i,
    {
        let ghost head = v@.subrange(0, i as int);
        let ghost next = v@.subrange(0, i + 1);
        let ghost tok = v@.subrange(start as int, i as int);
        proof {
            assert(next.drop_last() =~= head);
            assert(done.push(tok).drop_last() =~= done);
        }
        if v[i] == ',' {
            match find_name(&v, start, i, names) {
                Some(j) => {
                    bits.set(j, true);
                },
                None => {
                    bad = true;
                },
            }
            proof {
                assert(v@.subrange(i + 1, i + 1) =~= Seq::<char>::empty());
                done = done.push(tok);
            }
            start = i + 1;
        } else {
            proof {
                assert(tok.push(v@[i as int]) =~= v@.subrange(start as int, i + 1));
            }
        }
        i += 1;
    }
    let ghost tok = v@.subrange(start as int, i as int);
    proof {
        assert(v@.subrange(0, i as int) =~= v@);
        assert(done.push(tok).drop_last() =~= done);
    }
    match find_name(&v, start, i, names) {
        Some(j) => {
            bits.set(j, true);
            if bad {
                None
            } else {
                Some(bits)
            }
        },
        None => None,
    }
}

/// Writes a flag set as text: the names of the flags that are set, in the
/// table's order, with commas between them.
pub(crate) fn write_flag_bits(bits: &Vec<bool>, names: &Vec<&'static str>) -> (r: String)
    requires
        bits@.len() == names@.len(),
    ensures
        r@ == flag_text(table_of(names@), bits@),
{
    let ghost table = table_of(names@);
    let mut out = String::new();
    let mut any = false;
    let mut i: usize = 0;
    while i < names.len()
        invariant
            i <= names@.len(),
            bits@.len() == names@.len(),
            table == table_of(names@),
            out@ == join_commas(names_of_bits(table, bits@, i as nat)),
            any == (names_of_bits(table, bits@, i as nat).len() > 0),
        decreases names@.len() - i,
    {
        let ghost before = names_of_bits(table, bits@, i as nat);
        if bits[i] {
            proof {
                reveal_strlit(",");
                assert(before.push(table[i as int]).drop_last() =~= before);
                assert(","@ =~= seq![',']);
            }
            if any {
                out.append(",");
            }
            out.append(names[i]);
            any = true;
        }
        i += 1;
    }
    out
}


/// The names of the expand flags, in the order in which they are written.
pub open spec fn expand_table() -> Seq<Seq<char>> {
    seq![
        "files"@,
        "filesets"@,
        "webcaptures"@,
        "releases"@,
        "container"@,
        "creator"@,
        "contribs"@,
        "refs"@,
    ]
}

/// The names of the hide flags, in the order in which they are written.
pub open spec fn hide_table() -> Seq<Seq<char>> {
    seq!["abstracts"@, "refs"@, "contribs"@]
}

/// Which related entities to attach to an entity that is read.
#[derive(Clone, Copy, Debug, PartialEq, Eq, Structural)]
pub struct ExpandFlags {
    pub files: bool,
    pub filesets: bool,
    pub webcaptures: bool,
    pub releases: bool,
    pub container: bool,
    pub creator: bool,
    pub contribs: bool,
    pub refs: bool,
}

/// Which sub-resources to leave out of an entity that is read.
#[derive(Clone, Copy, Debug, PartialEq, Eq, Structural)]
pub struct HideFlags {
    pub abstracts: bool,
    pub refs: bool,
    pub contribs: bool,
}

pub proof fn lemma_expand_table_ok()
    ensures
        table_ok(expand_table()),
        expand_table().len() == 8,
{
    reveal_strlit("files");
    reveal_strlit("filesets");
    reveal_strlit("webcaptures");
    reveal_strlit("releases");
    reveal_strlit("container");
    reveal_strlit("creator");
    reveal_strlit("contribs");
    reveal_strlit("refs");
    let t = expand_table();
    assert(t[1][0] == 'f' && t[3][0] == 'r' && t[6][0] == 'c');
    assert forall|i: int| 0 <= i < t.len() implies (#[trigger] t[i]).len() > 0 && has_no_comma(t[i]) by {
        assert forall|k: int| 0 <= k < t[i].len() implies t[i][k] != ',' by {}
    }
}

pub proof fn lemma_hide_table_ok()
    ensures
        table_ok(hide_table()),
        hide_table().len() == 3,
{
    reveal_strlit("abstracts");
    reveal_strlit("refs");
    reveal_strlit("contribs");
    let t = hide_table();
    assert forall|i: int| 0 <= i < t.len() implies (#[trigger] t[i]).len() > 0 && has_no_comma(t[i]) by {
        assert forall|k: int| 0 <= k < t[i].len() implies t[i][k] != ',' by {}
    }
}

fn expand_names() -> (names: Vec<&'static str>)
    ensures
        table_of(names@) == expand_table(),
{
    let names = vec![
        "files",
        "filesets",
        "webcaptures",
        "releases",
        "container",
        "creator",
        "contribs",
        "refs",
    ];
    assert(table_of(names@) =~= expand_table());
    names
}

fn hide_names() -> (names: Vec<&'static str>)
    ensures
        table_of(names@) == hide_table(),
{
    let names = vec!["abstracts", "refs", "contribs"];
    assert(table_of(names@) =~= hide_table());
    names
}

impl ExpandFlags {
    /// The flags as truth values, one per name of the table.
    pub open spec fn bits(self) -> Seq<bool> {
        seq![
            self.files,
            self.filesets,
            self.webcaptures,
            self.releases,
            self.container,
            self.creator,
            self.contribs,
            self.refs,
        ]
    }

    /// The flag set that a text stands for.
    pub open spec fn spec_from_str(s: Seq<char>) -> Option<ExpandFlags> {
        match parse_flag_text(expand_table(), s) {
            Some(b) => Some(
                ExpandFlags {
                    files: b[0],
                    filesets: b[1],
                    webcaptures: b[2],
                    releases: b[3],
                    container: b[4],
                    creator: b[5],
                    contribs: b[6],
                    refs: b[7],
                },
            ),
            None => None,
        }
    }

    /// The text of this flag set.
    pub open spec fn spec_to_string(self) -> Seq<char> {
        flag_text(expand_table(), self.bits())
    }

    /// The empty set.
    pub fn none() -> (f: ExpandFlags)
        ensures
            f == (ExpandFlags {
                files: false,
                filesets: false,
                webcaptures: false,
                releases: false,
                container: false,
                creator: false,
                contribs: false,
                refs: false,
            }),
    {
        ExpandFlags {
            files: false,
            filesets: false,
            webcaptures: false,
            releases: false,
            container: false,
            creator: false,
            contribs: false,
            refs: false,
        }
    }

    /// Reads a flag set. A piece of the text that is not the name of an
    /// expand flag fails with `MalformedFlag`.
    pub fn from_str(s: &str) -> (r: Result<ExpandFlags, FatcatError>)
        ensures
            match r {
                Ok(f) => ExpandFlags::spec_from_str(s@) == Some(f),
                Err(e) => ExpandFlags::spec_from_str(s@) is None && e@ == ErrorView::MalformedFlag,
            },
    {
        let names = expand_names();
        match parse_flag_bits(s, &names) {
            Some(b) => {
                assert(b@.len() == 8) by {
                    lemma_parsed_len(expand_table(), s@);
                }
                Ok(
                    ExpandFlags {
                        files: b[0],
                        filesets: b[1],
                        webcaptures: b[2],
                        releases: b[3],
                        container: b[4],
                        creator: b[5],
                        contribs: b[6],
                        refs: b[7],
                    },
                )
            },
            None => Err(FatcatError::MalformedFlag),
        }
    }

    /// Writes this flag set: the names of its flags, with commas between them.
    pub fn to_string(&self) -> (r: String)
        ensures
            r@ == self.spec_to_string(),
            ExpandFlags::spec_from_str(r@) == Some(*self),
    {
        let names = expand_names();
        let bits = vec![
            self.files,
            self.filesets,
            self.webcaptures,
            self.releases,
            self.container,
            self.creator,
            self.contribs,
            self.refs,
        ];
        assert(bits@ =~= self.bits());
        proof {
            lemma_expand_roundtrip(*self);
        }
        write_flag_bits(&bits, &names)
    }
}

impl HideFlags {
    /// The flags as truth values, one per name of the table.
    pub open spec fn bits(self) -> Seq<bool> {
        seq![self.abstracts, self.refs, self.contribs]
    }

    /// The flag set that a text stands for.
    pub open spec fn spec_from_str(s: Seq<char>) -> Option<HideFlags> {
        match parse_flag_text(hide_table(), s) {
            Some(b) => Some(HideFlags { abstracts: b[0], refs: b[1], contribs: b[2] }),
            None => None,
        }
    }

    /// The text of this flag set.
    pub open spec fn spec_to_string(self) -> Seq<char> {
        flag_text(hide_table(), self.bits())
    }

    /// The empty set.
    pub fn none() -> (f: HideFlags)
        ensures
            f == (HideFlags { abstracts: false, refs: false, contribs: false }),
    {
        HideFlags { abstracts: false, refs: false, contribs: false }
    }

    /// Reads a flag set. A piece of the text that is not the name of a hide
    /// flag fails with `MalformedFlag`.
    pub fn from_str(s: &str) -> (r: Result<HideFlags, FatcatError>)
        ensures
            match r {
                Ok(f) => HideFlags::spec_from_str(s@) == Some(f),
                Err(e) => HideFlags::spec_from_str(s@) is None && e@ == ErrorView::MalformedFlag,
            },
    {
        let names = hide_names();
        match parse_flag_bits(s, &names) {
            Some(b) => {
                assert(b@.len() == 3) by {
                    lemma_parsed_len(hide_table(), s@);
                }
                Ok(HideFlags { abstracts: b[0], refs: b[1], contribs: b[2] })
            },
            None => Err(FatcatError::MalformedFlag),
        }
    }

    /// Writes this flag set: the names of its flags, with commas between them.
    pub fn to_string(&self) -> (r: String)
        ensures
            r@ == self.spec_to_string(),
            HideFlags::spec_from_str(r@) == Some(*self),
    {
        let names = hide_names();
        let bits = vec![self.abstracts, self.refs, self.contribs];
        assert(bits@ =~= self.bits());
        proof {
            lemma_hide_roundtrip(*self);
        }
        write_flag_bits(&bits, &names)
    }
}

proof fn lemma_bits_len(table: Seq<Seq<char>>, names: Seq<Seq<char>>)
    ensures
        bits_of_names(table, names) is Some ==> bits_of_names(table, names)->0.len() == table.len(),
    decreases names.len(),
{
    if names.len() > 0 {
        lemma_bits_len(table, names.drop_last());
        lemma_name_index_found(table, names.last(), 0);
    }
}

proof fn lemma_name_index_found(table: Seq<Seq<char>>, name: Seq<char>, from: int)
    ensures
        match name_index(table, name, from) {
            Some(i) => 0 <= from <= i < table.len() && table[i] == name,
            None => true,
        },
    decreases table.len() - from,
{
    if 0 <= from < table.len() && table[from] != name {
        lemma_name_index_found(table, name, from + 1);
    }
}

proof fn lemma_parsed_len(table: Seq<Seq<char>>, s: Seq<char>)
    ensures
        parse_flag_text(table, s) is Some ==> parse_flag_text(table, s)->0.len() == table.len(),
{
    lemma_bits_len(table, split_commas(s));
}

/// Every set of expand flags is read back from its own text.
pub proof fn lemma_expand_roundtrip(f: ExpandFlags)
    ensures
        ExpandFlags::spec_from_str(f.spec_to_string()) == Some(f),
{
    lemma_expand_table_ok();
    lemma_flag_text_roundtrip(expand_table(), f.bits());
}

/// Every set of hide flags is read back from its own text.
pub proof fn lemma_hide_roundtrip(f: HideFlags)
    ensures
        HideFlags::spec_from_str(f.spec_to_string()) == Some(f),
{
    lemma_hide_table_ok();
    lemma_flag_text_roundtrip(hide_table(), f.bits());
}


/// The flags that a list of names of the table sets are those whose names
/// occur in it: neither the order of the names nor a name given twice
/// matters.
pub proof fn lemma_bits_of_names_is_set(table: Seq<Seq<char>>, names: Seq<Seq<char>>)
    requires
        table_ok(table),
        forall|i: int| 0 <= i < names.len() ==> table.contains(#[trigger] names[i]),
    ensures
        bits_of_names(table, names) == Some(
            Seq::new(table.len(), |j: int| names.contains(table[j])),
        ),
    decreases names.len(),
{
    let want = Seq::new(table.len(), |j: int| names.contains(table[j]));
    if names.len() == 0 {
        assert(Seq::new(table.len(), |i: int| false) =~= want);
    } else {
        let init = names.drop_last();
        let last = names.last();
        assert forall|i: int| 0 <= i < init.len() implies table.contains(#[trigger] init[i]) by {
            assert(init[i] == names[i]);
        }
        lemma_bits_of_names_is_set(table, init);
        let before = Seq::new(table.len(), |j: int| init.contains(table[j]));
        assert(table.contains(last));
        let k = choose|k: int| 0 <= k < table.len() && table[k] == last;
        lemma_name_index(table, k, 0);
        assert forall|j: int| 0 <= j < table.len() implies before.update(k, true)[j] == want[j] by {
            if names.contains(table[j]) {
                let i = choose|i: int| 0 <= i < names.len() && names[i] == table[j];
                if i < init.len() {
                    assert(init[i] == table[j]);
                } else {
                    assert(table[j] == table[k]);
                }
            }
            if init.contains(table[j]) {
                let i = choose|i: int| 0 <= i < init.len() && init[i] == table[j];
                assert(names[i] == table[j]);
            }
            if j == k {
                assert(names[names.len() - 1] == table[j]);
            }
        }
        assert(before.update(k, true) =~= want);
    }
}

/// A text of names of the table with commas between them, in any order and
/// with any name given more than once, sets the flags whose names occur in it.
pub proof fn lemma_flag_names_in_any_order(table: Seq<Seq<char>>, names: Seq<Seq<char>>)
    requires
        table_ok(table),
        forall|i: int| 0 <= i < names.len() ==> table.contains(#[trigger] names[i]),
    ensures
        parse_flag_text(table, join_commas(names)) == Some(
            Seq::new(table.len(), |j: int| names.contains(table[j])),
        ),
{
    lemma_bits_of_names_is_set(table, names);
    if names.len() == 0 {
        assert(Seq::new(table.len(), |i: int| false) =~= Seq::new(
            table.len(),
            |j: int| names.contains(table[j]),
        ));
    } else {
        assert forall|i: int| 0 <= i < names.len() implies (#[trigger] names[i]).len() > 0
            && has_no_comma(names[i]) by {
            let k = choose|k: int| 0 <= k < table.len() && table[k] == names[i];
            assert(table[k].len() > 0);
        }
        lemma_split_join(names);
        lemma_join_nonempty(names);
    }
}

/// Expand flags are read from their names in any order: the text of a list
/// of names of expand flags sets exactly the flags that the list names.
pub proof fn lemma_expand_any_order(names: Seq<Seq<char>>)
    requires
        forall|i: int| 0 <= i < names.len() ==> expand_table().contains(#[trigger] names[i]),
    ensures
        ExpandFlags::spec_from_str(join_commas(names)) == Some(
            ExpandFlags {
                files: names.contains("files"@),
                filesets: names.contains("filesets"@),
                webcaptures: names.contains("webcaptures"@),
                releases: names.contains("releases"@),
                container: names.contains("container"@),
                creator: names.contains("creator"@),
                contribs: names.contains("contribs"@),
                refs: names.contains("refs"@),
            },
        ),
{
    lemma_expand_table_ok();
    lemma_flag_names_in_any_order(expand_table(), names);
}

/// Hide flags are read from their names in any order.
pub proof fn lemma_hide_any_order(names: Seq<Seq<char>>)
    requires
        forall|i: int| 0 <= i < names.len() ==> hide_table().contains(#[trigger] names[i]),
    ensures
        HideFlags::spec_from_str(join_commas(names)) == Some(
            HideFlags {
                abstracts: names.contains("abstracts"@),
                refs: names.contains("refs"@),
                contribs: names.contains("contribs"@),
            },
        ),
{
    lemma_hide_table_ok();
    lemma_flag_names_in_any_order(hide_table(), names);
}

} // verus!
