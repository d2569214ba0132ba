//! Sidecar files: the names under which one is looked for, and the tags a
//! text sidecar holds, one per line.

use crate::sharedtypes::{GenericNamespaceObj, TagObject, TagType};
use crate::textparse::{decode_utf8, utf8_decoded};
use vstd::prelude::*;
use vstd::string::StringExecFns;

verus! {

broadcast use vstd::string::group_string_axioms;

/// The namespace of the tags read from a text sidecar.
pub open spec fn sidecar_txt_namespace() -> Seq<char> {
    "SYSTEM_Sidecar_TXT"@
}

/// The description of that namespace.
pub open spec fn sidecar_txt_description() -> Seq<char> {
    "Information from a sidecar file. TXT Import"@
}

/// The first position at or after `i` that holds a line feed.
pub open spec fn nl_from(b: Seq<u8>, i: int) -> Option<int>
    decreases b.len() - i,
{
    if i < 0 || i >= b.len() {
        None
    } else if b[i] == 10u8 {
        Some(i)
    } else {
        nl_from(b, i + 1)
    }
}

pub proof fn lemma_nl_from_bounds(b: Seq<u8>, i: int)
    requires
        0 <= i,
    ensures
        match nl_from(b, i) {
            Some(j) => i <= j < b.len() && b[j] == 10u8 && forall|k: int|
                i <= k < j ==> b[k] != 10u8,
            None => forall|k: int| i <= k < b.len() ==> b[k] != 10u8,
        },
    decreases b.len() - i,
{
    if i < b.len() && b[i] != 10u8 {
        lemma_nl_from_bounds(b, i + 1);
    }
}

/// A line with the carriage return that ended it dropped.
pub open spec fn strip_cr(l: Seq<u8>) -> Seq<u8> {
    if l.len() > 0 && l.last() == 13u8 {
        l.drop_last()
    } else {
        l
    }
}

/// The lines of `b` from position `start` on, as `BufRead::lines` reads
/// them: each ends at a line feed, which is dropped along with a carriage
/// return just before it; a last line with no line feed is kept as it is,
/// and nothing after a final line feed makes a line.
pub open spec fn lines_from(b: Seq<u8>, start: int) -> Seq<Seq<u8>>
    decreases b.len() - start,
{
    if start < 0 || start >= b.len() {
        Seq::empty()
    } else {
        match nl_from(b, start) {
            Some(j) => {
                proof {
                    lemma_nl_from_bounds(b, start);
                }
                seq![strip_cr(b.subrange(start, j))] + lines_from(b, j + 1)
            },
            None => seq![b.subrange(start, b.len() as int)],
        }
    }
}

/// The lines `ls`, each followed by a line feed, one after another.
pub open spec fn joined_lines(ls: Seq<Seq<u8>>) -> Seq<u8>
    decreases ls.len(),
{
    if ls.len() == 0 {
        Seq::empty()
    } else {
        ls[0] + seq![10u8] + joined_lines(ls.skip(1))
    }
}

/// `b` ended by a line feed: as it is when empty or ending in one, else
/// with one added.
pub open spec fn with_final_nl(b: Seq<u8>) -> Seq<u8> {
    if b.len() == 0 || b.last() == 10u8 {
        b
    } else {
        b.push(10u8)
    }
}

proof fn lemma_lines_from_joined(b: Seq<u8>, start: int)
    requires
        0 <= start <= b.len(),
        forall|k: int| 0 <= k < b.len() ==> b[k] != 13u8,
    ensures
        joined_lines(lines_from(b, start)) == with_final_nl(b.subrange(start, b.len() as int)),
    decreases b.len() - start,
{
    let rest_b = b.subrange(start, b.len() as int);
    if start == b.len() {
        assert(rest_b =~= Seq::<u8>::empty());
    } else {
        lemma_nl_from_bounds(b, start);
        match nl_from(b, start) {
            Some(j) => {
                let line = b.subrange(start, j);
                if line.len() > 0 {
                    assert(line.last() == b[j - 1]);
                }
                assert(strip_cr(line) == line);
                let ls = lines_from(b, start);
                let tail = lines_from(b, j + 1);
                assert(ls == seq![line] + tail);
                assert(ls.skip(1) =~= tail);
                assert(ls[0] == line);
                lemma_lines_from_joined(b, j + 1);
                let after = b.subrange(j + 1, b.len() as int);
                assert(joined_lines(ls) == ls[0] + seq![10u8] + joined_lines(ls.skip(1)));
                assert(joined_lines(ls) == line + seq![10u8] + with_final_nl(after));
                if after.len() > 0 {
                    assert(after.last() == b.last());
                    assert(rest_b.last() == b.last());
                    assert(line + seq![10u8] + with_final_nl(after) =~= with_final_nl(rest_b));
                } else {
                    assert(rest_b.last() == b[j]);
                    assert(line + seq![10u8] + with_final_nl(after) =~= with_final_nl(rest_b));
                }
            },
            None => {
                let ls = lines_from(b, start);
                assert(ls == seq![rest_b]);
                assert(ls.skip(1) =~= Seq::<Seq<u8>>::empty());
                assert(joined_lines(ls) == ls[0] + seq![10u8] + joined_lines(ls.skip(1)));
                assert(joined_lines(ls.skip(1)) == Seq::<u8>::empty());
                assert(rest_b.last() == b[b.len() - 1]);
                assert(rest_b + seq![10u8] + Seq::<u8>::empty() =~= with_final_nl(rest_b));
            },
        }
    }
}

/// Reading a text without carriage returns into lines loses nothing: the
/// lines, each followed by a line feed, give back the text, ended by a line
/// feed where it did not end in one.
pub proof fn law_lines_join_back(b: Seq<u8>)
    requires
        forall|k: int| 0 <= k < b.len() ==> b[k] != 13u8,
    ensures
        joined_lines(lines_of(b)) == with_final_nl(b),
{
    lemma_lines_from_joined(b, 0);
    assert(b.subrange(0, b.len() as int) =~= b);
}

/// The lines of `b`.
pub open spec fn lines_of(b: Seq<u8>) -> Seq<Seq<u8>> {
    lines_from(b, 0)
}

/// Splits the contents of a text file into its lines, as `BufRead::lines`
/// does, before any line is decoded.
pub fn sidecar_lines(content: &[u8]) -> (res: Vec<Vec<u8>>)
    ensures
        res@.map_values(|l: Vec<u8>| l@) == lines_of(content@),
{
    let ghost b = content@;
    let mut out: Vec<Vec<u8>> = Vec::new();
    let mut start: usize = 0;
    while start < content.len()
        invariant
            b == content@,
            start <= content.len(),
            out@.map_values(|l: Vec<u8>| l@) + lines_from(b, start as int) == lines_of(b),
        decreases content.len() - start,
    {
        let mut i: usize = start;
        while i < content.len() && content[i] != 10u8
            invariant
                b == content@,
                start <= i <= content.len(),
                forall|k: int| start <= k < i ==> b[k] != 10u8,
            decreases content.len() - i,
        {
            i = i + 1;
        }
        proof {
            lemma_nl_from_bounds(b, start as int);
        }
        let ghost before = out@.map_values(|l: Vec<u8>| l@);
        if i < content.len() {
            assert(nl_from(b, start as int) == Some(i as int)) by {
                match nl_from(b, start as int) {
                    Some(j) => {
                        if j < i {
                            assert(b[j] != 10u8);
                        } else if j > i {
                            assert(b[i as int] != 10u8);
                        }
                    },
                    None => {
                        assert(b[i as int] == 10u8);
                    },
                }
            }
            let mut end: usize = i;
            if end > start && content[end - 1] == 13u8 {
                end = end - 1;
            }
            let line = vstd::slice::slice_to_vec(vstd::slice::slice_subrange(content, start, end));
            assert(line@ == strip_cr(b.subrange(start as int, i as int)));
            out.push(line);
            assert(out@.map_values(|l: Vec<u8>| l@) =~= before.push(line@));
            assert(lines_from(b, start as int) == seq![strip_cr(b.subrange(start as int, i as int))]
                + lines_from(b, i + 1));
            assert(out@.map_values(|l: Vec<u8>| l@) + lines_from(b, i + 1) =~= before + lines_from(
                b,
                start as int,
            ));
            start = i + 1;
        } else {
            assert(nl_from(b, start as int) is None);
            let line = vstd::slice::slice_to_vec(
                vstd::slice::slice_subrange(content, start, content.len()),
            );
            out.push(line);
            assert(out@.map_values(|l: Vec<u8>| l@) =~= before.push(line@));
            assert(lines_from(b, start as int) == seq![b.subrange(start as int, b.len() as int)]);
            assert(lines_from(b, content.len() as int) =~= Seq::<Seq<u8>>::empty());
            assert(out@.map_values(|l: Vec<u8>| l@) + lines_from(b, content.len() as int)
                =~= before + lines_from(b, start as int));
            start = content.len();
        }
    }
    assert(lines_from(b, start as int) =~= Seq::<Seq<u8>>::empty());
    assert(out@.map_values(|l: Vec<u8>| l@) =~= out@.map_values(|l: Vec<u8>| l@) + lines_from(
        b,
        start as int,
    ));
    out
}


/// The lines that could be read, in order.
pub open spec fn read_lines(ls: Seq<Option<Seq<char>>>) -> Seq<Seq<char>>
    decreases ls.len(),
{
    if ls.len() == 0 {
        Seq::empty()
    } else {
        match ls.last() {
            Some(l) => read_lines(ls.drop_last()).push(l),
            None => read_lines(ls.drop_last()),
        }
    }
}

/// Whether `t` is the tag a text sidecar gives for the line `line`.
pub open spec fn is_sidecar_tag(t: TagObject, line: Seq<char>) -> bool {
    &&& t.namespace.name@ == sidecar_txt_namespace()
    &&& t.namespace.description matches Some(d) && d@ == sidecar_txt_description()
    &&& t.tag@ == line
    &&& t.tag_type is Normal
    &&& t.relates_to is None
}

/// Whether `ts` are the tags of the lines `ls`, one for each, in order.
pub open spec fn sidecar_tags_of(ts: Seq<TagObject>, ls: Seq<Seq<char>>) -> bool {
    &&& ts.len() == ls.len()
    &&& forall|i: int| 0 <= i < ts.len() ==> is_sidecar_tag(#[trigger] ts[i], ls[i])
}

/// The tags of a text sidecar whose lines, once decoded, are `lines`: one
/// for each line that could be read, in order; a line that could not be read
/// gives none.
pub fn sidecar_tags(lines: Vec<Option<String>>) -> (res: Vec<TagObject>)
    ensures
        sidecar_tags_of(
            res@,
            read_lines(lines@.map_values(|l: Option<String>| crate::jobs::opt_str_view(l))),
        ),
{
    let ghost ls = lines@.map_values(|l: Option<String>| crate::jobs::opt_str_view(l));
    let mut out: Vec<TagObject> = Vec::new();
    let mut i: usize = 0;
    while i < lines.len()
        invariant
            ls == lines@.map_values(|l: Option<String>| crate::jobs::opt_str_view(l)),
            i <= lines.len(),
            sidecar_tags_of(out@, read_lines(ls.take(i as int))),
        decreases lines.len() - i,
    {
        assert(ls.take(i + 1).drop_last() =~= ls.take(i as int));
        match &lines[i] {
            Some(line) => {
                let t = TagObject {
                    namespace: GenericNamespaceObj {
                        name: "SYSTEM_Sidecar_TXT".to_owned(),
                        description: Some("Information from a sidecar file. TXT Import".to_owned()),
                    },
                    tag: line.clone(),
                    tag_type: TagType::Normal,
                    relates_to: None,
                };
                out.push(t);
            },
            None => {},
        }
        i = i + 1;
    }
    assert(ls.take(lines.len() as int) =~= ls);
    out
}

/// The tags of a text sidecar with the contents `content`: one per line, in
/// the namespace `SYSTEM_Sidecar_TXT`; a line that is not valid UTF-8 gives
/// none.
pub fn parse_sidecar_txt(content: &[u8]) -> (res: Vec<TagObject>)
    ensures
        sidecar_tags_of(
            res@,
            read_lines(lines_of(content@).map_values(|l: Seq<u8>| utf8_decoded(l))),
        ),
{
    let lines = sidecar_lines(content);
    let mut decoded: Vec<Option<String>> = Vec::new();
    let mut i: usize = 0;
    while i < lines.len()
        invariant
            i <= lines.len(),
            decoded@.map_values(|l: Option<String>| crate::jobs::opt_str_view(l)) == lines@.map_values(
                |l: Vec<u8>| l@,
            ).take(i as int).map_values(|l: Seq<u8>| utf8_decoded(l)),
        decreases lines.len() - i,
    {
        let ghost prev = decoded@.map_values(|l: Option<String>| crate::jobs::opt_str_view(l));
        let d = decode_utf8(lines[i].as_slice());
        assert(crate::jobs::opt_str_view(d) == utf8_decoded(lines@[i as int]@));
        decoded.push(d);
        assert(decoded@.map_values(|l: Option<String>| crate::jobs::opt_str_view(l)) =~= prev.push(
            crate::jobs::opt_str_view(d),
        ));
        assert(lines@.map_values(|l: Vec<u8>| l@).take(i + 1) =~= lines@.map_values(
            |l: Vec<u8>| l@,
        ).take(i as int).push(lines@[i as int]@));
        i = i + 1;
        assert(decoded@.map_values(|l: Option<String>| crate::jobs::opt_str_view(l))
            =~= lines@.map_values(|l: Vec<u8>| l@).take(i as int).map_values(
            |l: Seq<u8>| utf8_decoded(l),
        ));
    }
    assert(lines@.map_values(|l: Vec<u8>| l@).take(i as int) =~= lines@.map_values(
        |l: Vec<u8>| l@,
    ));
    sidecar_tags(decoded)
}

/// The names a sidecar of the file at `location` may have: the file's name
/// with `.txt`, then with `.json`, appended.
pub open spec fn sidecar_candidates(location: Seq<char>) -> Seq<Seq<char>> {
    seq![location + ".txt"@, location + ".json"@]
}

/// The sidecars of `location` given which candidates exist: the `.txt` one
/// when `txt`, then the `.json` one when `json`.
pub open spec fn sidecars_kept(location: Seq<char>, txt: bool, json: bool) -> Seq<Seq<char>> {
    let c = sidecar_candidates(location);
    if txt {
        if json {
            c
        } else {
            seq![c[0]]
        }
    } else {
        if json {
            seq![c[1]]
        } else {
            Seq::empty()
        }
    }
}

/// Each candidate is found exactly when it exists, whatever the other one
/// does: the `.txt` name when `txt`, the `.json` name when `json`, nothing
/// else, each once, the `.txt` one first.
pub proof fn law_sidecars_independent(location: Seq<char>, txt: bool, json: bool)
    ensures
        sidecars_kept(location, txt, json).contains(location + ".txt"@) == txt,
        sidecars_kept(location, txt, json).contains(location + ".json"@) == json,
        forall|i: int|
            0 <= i < sidecars_kept(location, txt, json).len() ==> #[trigger] sidecars_kept(location, txt, json)[i]
                == location + ".txt"@ || sidecars_kept(location, txt, json)[i] == location + ".json"@,
        sidecars_kept(location, txt, json).len() == (if txt {
            1int
        } else {
            0int
        }) + (if json {
            1int
        } else {
            0int
        }),
        txt && json ==> sidecars_kept(location, txt, json)[0] == location + ".txt"@,
{
    reveal_strlit(".txt");
    reveal_strlit(".json");
    let t = location + ".txt"@;
    let j = location + ".json"@;
    assert(t.len() != j.len());
    assert(t != j);
    let k = sidecars_kept(location, txt, json);
    if txt {
        assert(k[0] == t);
    }
    if json {
        assert(k[k.len() - 1] == j);
    }
    if !txt {
        assert forall|i: int| 0 <= i < k.len() implies k[i] != t by {}
    }
    if !json {
        assert forall|i: int| 0 <= i < k.len() implies k[i] != j by {}
    }
}

/// The sidecars of `location`, given whether its `.txt` and `.json`
/// candidates exist.
pub fn sidecars_present(location: &str, txt: bool, json: bool) -> (res: Vec<String>)
    ensures
        res@.map_values(|s: String| s@) == sidecars_kept(location@, txt, json),
        res@.map_values(|s: String| s@).contains(location@ + ".txt"@) == txt,
        res@.map_values(|s: String| s@).contains(location@ + ".json"@) == json,
{
    proof {
        law_sidecars_independent(location@, txt, json);
    }
    let mut out: Vec<String> = Vec::new();
    if txt {
        out.push(location.to_owned().concat(".txt"));
    }
    if json {
        out.push(location.to_owned().concat(".json"));
    }
    assert(out@.map_values(|s: String| s@) =~= sidecars_kept(location@, txt, json));
    out
}

} // verus!
