//! Classification of a session's tags into identifiers of the remote service.
//!
//! An identifier tag has the form `<class name>:<integer>`. The class names are
//! configuration: a [`TagClasses`] names the class of project identifiers, of
//! activity identifiers and of identifiers of existing remote records.
use crate::error::ReportError;
use crate::text::{decimal, lemma_parse_decimal, parse_usize, parse_usize_text};
use vstd::prelude::*;

verus! {

broadcast use vstd::string::group_string_axioms;

pub open spec fn is_prefix(p: Seq<char>, t: Seq<char>) -> bool {
    p.len() <= t.len() && t.subrange(0, p.len() as int) == p
}

pub open spec fn has_no_colon(s: Seq<char>) -> bool {
    forall|i: int| 0 <= i < s.len() ==> #[trigger] s[i] != ':'
}

/// The index of the first `:` in `s`, or its length where it has none.
pub open spec fn colon_index(s: Seq<char>) -> int
    decreases s.len(),
{
    if s.len() == 0 {
        0
    } else if s[0] == ':' {
        0
    } else {
        1 + colon_index(s.drop_first())
    }
}

/// The field of a tag: everything after its first `:`. A tag without `:` has none.
pub open spec fn id_field(t: Seq<char>) -> Option<Seq<char>> {
    let i = colon_index(t);
    if i >= t.len() {
        None
    } else {
        Some(t.subrange(i + 1, t.len() as int))
    }
}

/// The integer that an identifier tag carries, if its field reads as one.
pub open spec fn tag_value(t: Seq<char>) -> Option<usize> {
    match id_field(t) {
        Some(f) => parse_usize(f),
        None => None,
    }
}

/// The error that reports a malformed identifier tag `t`.
pub open spec fn is_parse_error_of(e: ReportError, t: Seq<char>) -> bool {
    match e {
        ReportError::ParseInt(m) => m@ == t,
        _ => false,
    }
}

/// The names of the three identifier classes.
#[derive(Clone, Debug, PartialEq, Eq)]
pub struct TagClasses {
    pub project: String,
    pub activity: String,
    pub record: String,
}

/// What a tag stands for.
#[derive(Clone, Copy, PartialEq, Eq, Structural, Debug)]
pub enum TagRole {
    Project,
    Activity,
    Record,
    Plain,
}

impl TagClasses {
    /// Class names that tell every identifier tag apart: none holds a `:`, and
    /// none is a prefix of another.
    pub open spec fn wf(&self) -> bool {
        &&& has_no_colon(self.project@)
        &&& has_no_colon(self.activity@)
        &&& has_no_colon(self.record@)
        &&& !is_prefix(self.project@, self.activity@)
        &&& !is_prefix(self.project@, self.record@)
        &&& !is_prefix(self.activity@, self.project@)
        &&& !is_prefix(self.activity@, self.record@)
        &&& !is_prefix(self.record@, self.project@)
        &&& !is_prefix(self.record@, self.activity@)
    }

    /// The class names of the remote service: `kimai_project`, `kimai_activity`
    /// and `kimai_id`.
    pub fn kimai() -> (r: TagClasses)
        ensures
            r.project@ == "kimai_project"@,
            r.activity@ == "kimai_activity"@,
            r.record@ == "kimai_id"@,
            r.wf(),
    {
        proof {
            reveal_strlit("kimai_project");
            reveal_strlit("kimai_activity");
            reveal_strlit("kimai_id");
            assert("kimai_project"@[6] != "kimai_id"@[6]);
            assert("kimai_project"@[6] != "kimai_activity"@[6]);
            assert("kimai_activity"@[6] != "kimai_id"@[6]);
            assert("kimai_id"@.subrange(0, 8) != "kimai_project"@);
        }
        TagClasses {
            project: String::from_str("kimai_project"),
            activity: String::from_str("kimai_activity"),
            record: String::from_str("kimai_id"),
        }
    }
}

/// The role of tag `t`: the first class, in the order project, activity, record,
/// whose name begins it.
pub open spec fn tag_role(c: TagClasses, t: Seq<char>) -> TagRole {
    if is_prefix(c.project@, t) {
        TagRole::Project
    } else if is_prefix(c.activity@, t) {
        TagRole::Activity
    } else if is_prefix(c.record@, t) {
        TagRole::Record
    } else {
        TagRole::Plain
    }
}

/// An identifier tag whose field does not read as an unsigned integer.
pub open spec fn malformed(c: TagClasses, t: Seq<char>) -> bool {
    tag_role(c, t) != TagRole::Plain && tag_value(t) is None
}

/// The value of the last tag of role `r`.
pub open spec fn last_value(c: TagClasses, tags: Seq<String>, r: TagRole) -> Option<usize>
    decreases tags.len(),
{
    if tags.len() == 0 {
        None
    } else if tag_role(c, tags.last()@) == r {
        tag_value(tags.last()@)
    } else {
        last_value(c, tags.drop_last(), r)
    }
}

/// The tags that are no identifier tags, in their order.
pub open spec fn residual_tags(c: TagClasses, tags: Seq<String>) -> Seq<Seq<char>>
    decreases tags.len(),
{
    if tags.len() == 0 {
        Seq::empty()
    } else if tag_role(c, tags.last()@) == TagRole::Plain {
        residual_tags(c, tags.drop_last()).push(tags.last()@)
    } else {
        residual_tags(c, tags.drop_last())
    }
}

/// The text of each string.
pub open spec fn views(v: Seq<String>) -> Seq<Seq<char>> {
    v.map_values(|s: String| s@)
}

/// The tag that records remote identifier `id`: `<record class>:<id>`.
pub open spec fn record_tag(c: TagClasses, id: usize) -> Seq<char> {
    c.record@ + ":"@ + decimal(id as nat)
}

/// The identifiers found among a session's tags, and the tags left over.
#[derive(Clone, Debug, PartialEq, Eq)]
pub struct ParsedIdentifiers {
    pub project: Option<usize>,
    pub activity: Option<usize>,
    pub record: Option<usize>,
    pub residual: Vec<String>,
}

impl ParsedIdentifiers {
    /// What classifying `tags` under `c` yields, when no tag is malformed.
    pub open spec fn classifies(&self, c: TagClasses, tags: Seq<String>) -> bool {
        &&& self.project == last_value(c, tags, TagRole::Project)
        &&& self.activity == last_value(c, tags, TagRole::Activity)
        &&& self.record == last_value(c, tags, TagRole::Record)
        &&& views(self.residual@) == residual_tags(c, tags)
    }
}

proof fn lemma_colon_index(s: Seq<char>, i: int)
    requires
        0 <= i <= s.len(),
        forall|k: int| 0 <= k < i ==> s[k] != ':',
        i == s.len() || s[i] == ':',
    ensures
        colon_index(s) == i,
    decreases s.len(),
{
    if s.len() > 0 && i > 0 {
        assert forall|k: int| 0 <= k < i - 1 implies s.drop_first()[k] != ':' by {
            assert(s.drop_first()[k] == s[k + 1]);
        }
        lemma_colon_index(s.drop_first(), i - 1);
    }
}

/// The index of the first `:` in `s` at or after `from`, or the length of `s`.
fn find_colon(s: &str, from: usize) -> (r: usize)
    requires
        from <= s@.len(),
    ensures
        r == from + colon_index(s@.subrange(from as int, s@.len() as int)),
        from <= r <= s@.len(),
{
    let len = s.unicode_len();
    let mut i: usize = from;
    while i < len && s.get_char(i) != ':'
        invariant
            from <= i <= len,
            len == s@.len(),
            forall|k: int| from <= k < i ==> s@[k] != ':',
        decreases len - i,
    {
        i = i + 1;
    }
    proof {
        let t = s@.subrange(from as int, len as int);
        assert forall|k: int| 0 <= k < i - from implies t[k] != ':' by {
            assert(t[k] == s@[from + k]);
        }
        lemma_colon_index(t, i - from);
    }
    i
}

/// Whether `p` begins `t`.
fn has_prefix(t: &str, p: &str) -> (r: bool)
    ensures
        r == is_prefix(p@, t@),
{
    let tl = t.unicode_len();
    let pl = p.unicode_len();
    if pl > tl {
        return false;
    }
    let mut i: usize = 0;
    while i < pl
        invariant
            i <= pl <= tl,
            tl == t@.len(),
            pl == p@.len(),
            forall|k: int| 0 <= k < i ==> t@[k] == p@[k],
        decreases pl - i,
    {
        if t.get_char(i) != p.get_char(i) {
            assert(t@.subrange(0, pl as int)[i as int] != p@[i as int]);
            return false;
        }
        i = i + 1;
    }
    assert(t@.subrange(0, pl as int) =~= p@);
    true
}

/// Reads the identifier that tag `input` carries when `identifier` begins it.
///
/// Returns `Ok(None)` where `identifier` does not begin `input`. Otherwise all
/// that follows the first `:` must read as an unsigned integer, which is
/// returned; where it does not (another `:` included), or the tag has no `:`,
/// the result is a `ParseInt` error whose message is the tag.
pub fn parse_kimai_id(input: &str, identifier: &str) -> (r: Result<Option<usize>, ReportError>)
    ensures
        !is_prefix(identifier@, input@) ==> r == Ok::<Option<usize>, ReportError>(None),
        is_prefix(identifier@, input@) && tag_value(input@) is Some ==> r == Ok::<
            Option<usize>,
            ReportError,
        >(tag_value(input@)),
        is_prefix(identifier@, input@) && tag_value(input@) is None ==> r is Err
            && is_parse_error_of(r->Err_0, input@),
{
    if !has_prefix(input, identifier) {
        return Ok(None);
    }
    let len = input.unicode_len();
    let i = find_colon(input, 0);
    assert(input@.subrange(0, len as int) =~= input@);
    if i >= len {
        return Err(ReportError::ParseInt(String::from_str(input)));
    }
    let field = input.substring_char(i + 1, len);
    match parse_usize_text(field) {
        Some(v) => Ok(Some(v)),
        None => Err(ReportError::ParseInt(String::from_str(input))),
    }
}

/// Classifies the tags of a session under the class names `c`.
///
/// A tag is an identifier of the first class whose name begins it, in the order
/// project, activity, record; of several tags of one class the last wins. The
/// other tags are kept in their order as residual tags. The first malformed
/// identifier tag ends the classification with a `ParseInt` error naming it.
pub fn classify_tags(c: &TagClasses, tags: &Vec<String>) -> (r: Result<ParsedIdentifiers, ReportError>)
    ensures
        r is Err <==> exists|i: int| 0 <= i < tags@.len() && malformed(*c, #[trigger] tags@[i]@),
        r is Err ==> exists|i: int|
            0 <= i < tags@.len() && malformed(*c, #[trigger] tags@[i]@) && (forall|j: int|
                0 <= j < i ==> !malformed(*c, #[trigger] tags@[j]@)) && is_parse_error_of(
                r->Err_0,
                tags@[i]@,
            ),
        r is Ok ==> r->Ok_0.classifies(*c, tags@),
{
    let mut project: Option<usize> = None;
    let mut activity: Option<usize> = None;
    let mut record: Option<usize> = None;
    let mut residual: Vec<String> = Vec::new();
    let mut i: usize = 0;
    assert(tags@.subrange(0, 0) =~= Seq::<String>::empty());
    assert(views(residual@) =~= Seq::<Seq<char>>::empty());
    while i < tags.len()
        invariant
            i <= tags@.len(),
            forall|j: int| 0 <= j < i ==> !malformed(*c, #[trigger] tags@[j]@),
            project == last_value(*c, tags@.subrange(0, i as int), TagRole::Project),
            activity == last_value(*c, tags@.subrange(0, i as int), TagRole::Activity),
            record == last_value(*c, tags@.subrange(0, i as int), TagRole::Record),
            views(residual@) == residual_tags(*c, tags@.subrange(0, i as int)),
        decreases tags@.len() - i,
    {
        let tag = &tags[i];
        let ghost pre = tags@.subrange(0, i + 1);
        assert(pre.drop_last() =~= tags@.subrange(0, i as int));
        assert(pre.last() == tags@[i as int]);
        match parse_kimai_id(tag.as_str(), c.project.as_str()) {
            Err(e) => {
                return Err(e);
            },
            Ok(Some(v)) => {
                project = Some(v);
            },
            Ok(None) => match parse_kimai_id(tag.as_str(), c.activity.as_str()) {
                Err(e) => {
                    return Err(e);
                },
                Ok(Some(v)) => {
                    activity = Some(v);
                },
                Ok(None) => match parse_kimai_id(tag.as_str(), c.record.as_str()) {
                    Err(e) => {
                        return Err(e);
                    },
                    Ok(Some(v)) => {
                        record = Some(v);
                    },
                    Ok(None) => {
                        let ghost before = residual@;
                        residual.push(tag.clone());
                        assert(views(residual@) =~= views(before).push(tag@));
                    },
                },
            },
        }
        i = i + 1;
    }
    assert(tags@.subrange(0, i as int) =~= tags@);
    Ok(ParsedIdentifiers { project, activity, record, residual })
}

proof fn lemma_residual_tags_plain(c: TagClasses, tags: Seq<String>)
    ensures
        forall|i: int|
            0 <= i < residual_tags(c, tags).len() ==> tag_role(c, #[trigger] residual_tags(
                c,
                tags,
            )[i]) == TagRole::Plain,
    decreases tags.len(),
{
    if tags.len() > 0 {
        lemma_residual_tags_plain(c, tags.drop_last());
    }
}

proof fn lemma_plain_tags_classify(c: TagClasses, tags: Seq<String>)
    requires
        forall|i: int| 0 <= i < tags.len() ==> tag_role(c, #[trigger] tags[i]@) == TagRole::Plain,
    ensures
        last_value(c, tags, TagRole::Project) is None,
        last_value(c, tags, TagRole::Activity) is None,
        last_value(c, tags, TagRole::Record) is None,
        residual_tags(c, tags) == views(tags),
    decreases tags.len(),
{
    if tags.len() > 0 {
        let init = tags.drop_last();
        assert forall|i: int| 0 <= i < init.len() implies tag_role(c, #[trigger] init[i]@)
            == TagRole::Plain by {
            assert(init[i] == tags[i]);
        }
        assert(tag_role(c, tags[tags.len() - 1]@) == TagRole::Plain);
        lemma_plain_tags_classify(c, init);
        assert(views(tags) =~= views(init).push(tags.last()@));
    } else {
        assert(views(tags) =~= Seq::<Seq<char>>::empty());
    }
}

/// Classifying the residual tags of a classification again finds no identifier
/// and no malformed tag, and leaves the same residual tags.
pub proof fn lemma_reclassify_residual(c: TagClasses, tags: Seq<String>, residual: Seq<String>)
    requires
        views(residual) == residual_tags(c, tags),
    ensures
        forall|i: int| 0 <= i < residual.len() ==> !malformed(c, #[trigger] residual[i]@),
        last_value(c, residual, TagRole::Project) is None,
        last_value(c, residual, TagRole::Activity) is None,
        last_value(c, residual, TagRole::Record) is None,
        residual_tags(c, residual) == views(residual),
{
    lemma_residual_tags_plain(c, tags);
    assert forall|i: int| 0 <= i < residual.len() implies tag_role(c, #[trigger] residual[i]@)
        == TagRole::Plain by {
        assert(views(residual)[i] == residual[i]@);
    }
    lemma_plain_tags_classify(c, residual);
}

proof fn lemma_not_prefix_of_record_tag(p: Seq<char>, rec: Seq<char>, t: Seq<char>)
    requires
        has_no_colon(p),
        !is_prefix(p, rec),
        rec.len() < t.len(),
        t.subrange(0, rec.len() as int) == rec,
        t[rec.len() as int] == ':',
    ensures
        !is_prefix(p, t),
{
    if is_prefix(p, t) {
        if p.len() <= rec.len() {
            assert(rec.subrange(0, p.len() as int) =~= t.subrange(0, p.len() as int));
        } else {
            assert(p[rec.len() as int] == t.subrange(0, p.len() as int)[rec.len() as int]);
        }
    }
}

/// The record tag of `id` is an identifier tag of the record class that carries `id`.
pub proof fn lemma_record_tag_classifies(c: TagClasses, id: usize)
    requires
        c.wf(),
    ensures
        tag_role(c, record_tag(c, id)) == TagRole::Record,
        tag_value(record_tag(c, id)) == Some(id),
{
    let t = record_tag(c, id);
    let rec = c.record@;
    let rl = rec.len() as int;
    let digits = decimal(id as nat);
    reveal_strlit(":");
    assert(t.subrange(0, rl) =~= rec);
    assert(t[rl] == ':');
    lemma_not_prefix_of_record_tag(c.project@, rec, t);
    lemma_not_prefix_of_record_tag(c.activity@, rec, t);
    assert forall|k: int| 0 <= k < rl implies t[k] != ':' by {
        assert(t[k] == rec[k]);
    }
    lemma_colon_index(t, rl);
    assert(t.subrange(rl + 1, t.len() as int) =~= digits);
    lemma_parse_decimal(id);
}

/// Once the record tag of `id` is appended to tags that classify without error,
/// the tags still classify without error, now carry record identifier `id`, and
/// keep their project, activity and residual tags.
pub proof fn lemma_record_tag_round_trip(c: TagClasses, tags: Seq<String>, tag: String, id: usize)
    requires
        c.wf(),
        tag@ == record_tag(c, id),
        forall|i: int| 0 <= i < tags.len() ==> !malformed(c, #[trigger] tags[i]@),
    ensures
        forall|i: int| 0 <= i < tags.len() + 1 ==> !malformed(c, #[trigger] tags.push(tag)[i]@),
        last_value(c, tags.push(tag), TagRole::Record) == Some(id),
        last_value(c, tags.push(tag), TagRole::Project) == last_value(c, tags, TagRole::Project),
        last_value(c, tags.push(tag), TagRole::Activity) == last_value(
            c,
            tags,
            TagRole::Activity,
        ),
        residual_tags(c, tags.push(tag)) == residual_tags(c, tags),
{
    lemma_record_tag_classifies(c, id);
    let all = tags.push(tag);
    assert(all.drop_last() =~= tags);
    assert forall|i: int| 0 <= i < tags.len() + 1 implies !malformed(c, #[trigger] all[i]@) by {
        if i < tags.len() {
            assert(all[i] == tags[i]);
        }
    }
}

} // verus!
