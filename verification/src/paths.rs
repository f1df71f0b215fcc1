//! Paths as they come from other devices, and names for files that are safe to create.
use crate::error::{AppError, AppResult};
use crate::text;
use std::path::{Component, Components, Path};
use vstd::prelude::*;

verus! {

/// The name of a file that has none.
pub const UNNAMED: &'static str = "未命名文件";

/// A part of a path.
#[derive(Debug)]
pub enum PathPart {
    Prefix,
    RootDir,
    CurDir,
    ParentDir,
    Normal(String),
}

/// A part of a path as a plain value.
pub enum PartModel {
    Prefix,
    RootDir,
    CurDir,
    ParentDir,
    Normal(Seq<char>),
}

impl View for PathPart {
    type V = PartModel;

    open spec fn view(&self) -> PartModel {
        match self {
            PathPart::Prefix => PartModel::Prefix,
            PathPart::RootDir => PartModel::RootDir,
            PathPart::CurDir => PartModel::CurDir,
            PathPart::ParentDir => PartModel::ParentDir,
            PathPart::Normal(name) => PartModel::Normal(name@),
        }
    }
}

/// The parts as plain values.
pub open spec fn part_models(s: Seq<PathPart>) -> Seq<PartModel> {
    s.map_values(|p: PathPart| p@)
}

/// The character stands between parts of a path: a slash, and a backslash where both do.
pub open spec fn is_separating(c: char, both: bool) -> bool {
    c == '/' || both && c == '\\'
}

/// The pieces of a text between separating characters.
pub open spec fn pieces_by(s: Seq<char>, both: bool) -> Seq<Seq<char>>
    decreases s.len(),
{
    if s.len() == 0 {
        seq![Seq::empty()]
    } else {
        let front = pieces_by(s.drop_last(), both);
        if is_separating(s.last(), both) {
            front.push(Seq::empty())
        } else {
            front.drop_last().push(front.last().push(s.last()))
        }
    }
}

/// The part of a path that a piece stands for, where it stands for one: empty pieces and single
/// dots stand for none, but for a dot at the very front.
pub open spec fn part_of(piece: Seq<char>, at_front: bool) -> Option<PartModel> {
    if piece.len() == 0 {
        None
    } else if piece == seq!['.'] {
        if at_front {
            Some(PartModel::CurDir)
        } else {
            None
        }
    } else if piece == seq!['.', '.'] {
        Some(PartModel::ParentDir)
    } else {
        Some(PartModel::Normal(piece))
    }
}

/// The parts that the first `n` pieces stand for.
pub open spec fn parts_of(ps: Seq<Seq<char>>, n: nat) -> Seq<PartModel>
    decreases n,
{
    if n == 0 {
        Seq::empty()
    } else {
        let front = parts_of(ps, (n - 1) as nat);
        match part_of(ps[n - 1], n == 1) {
            Some(part) => front.push(part),
            None => front,
        }
    }
}

/// The text names no drive and no server: no colon stands in second place, and it does not begin
/// with two separating characters.
pub open spec fn has_no_prefix(s: Seq<char>) -> bool {
    &&& !(s.len() >= 2 && s[1] == ':')
    &&& !(s.len() >= 2 && is_separating(s[0], true) && is_separating(s[1], true))
}

/// The text means the same path on all systems: it has no backslash, no drive letter and no
/// server name in it.
pub open spec fn is_portable(s: Seq<char>) -> bool {
    !s.contains('\\') && has_no_prefix(s)
}

/// The parts of a path that names no drive and no server, where slashes stand between parts, and
/// backslashes too where both do.
pub open spec fn parts_by(s: Seq<char>, both: bool) -> Seq<PartModel> {
    let root = if s.len() > 0 && is_separating(s[0], both) {
        seq![PartModel::RootDir]
    } else {
        Seq::empty()
    };
    root + parts_of(pieces_by(s, both), pieces_by(s, both).len())
}

/// The parts of a path that means the same on all systems.
pub open spec fn portable_parts(s: Seq<char>) -> Seq<PartModel> {
    parts_by(s, false)
}

/// These are the parts of the path on some system: backslashes belong to names, or they stand
/// between parts.
pub open spec fn are_parts(parts: Seq<PartModel>, s: Seq<char>) -> bool {
    parts == parts_by(s, false) || parts == parts_by(s, true)
}

/// The path stays inside the directory that it starts from on all systems.
pub open spec fn surely_inside(s: Seq<char>) -> bool {
    has_no_prefix(s) && stays_inside(parts_by(s, false)) && stays_inside(parts_by(s, true))
}

/// The path leads out of the directory that it starts from on all systems.
pub open spec fn surely_outside(s: Seq<char>) -> bool {
    ||| leads_out(s)
    ||| has_no_prefix(s) && !stays_inside(parts_by(s, false)) && !stays_inside(parts_by(s, true))
}

/// The parts of a path that are still to come.
#[verifier::external_type_specification]
#[verifier::external_body]
pub struct ExComponents<'a>(Components<'a>);

/// The parts that are still to come.
pub uninterp spec fn parts_left(c: Components) -> Seq<PartModel>;

/// The text leads out of the directory that it starts from on all systems: it begins with a slash,
/// or two dots stand between slashes.
pub open spec fn leads_out(s: Seq<char>) -> bool {
    ||| s.len() > 0 && s[0] == '/'
    ||| pieces_by(s, false).contains(seq!['.', '.'])
}

/// The names among the parts are taken from this text.
pub open spec fn are_taken_from(parts: Seq<PartModel>, s: Seq<char>) -> bool {
    forall|i: int, c: char|
        #![trigger parts[i]->Normal_0.contains(c)]
        0 <= i < parts.len() && parts[i] is Normal && parts[i]->Normal_0.contains(c)
            ==> s.contains(c)
}

/// `Path::components`: the parts of a path, repeated separators and inner dots left out. A slash
/// separates parts on all systems, so that a slash at the front gives a root or a prefix, and two
/// dots between slashes give the parent directory, unless a prefix takes them in. A backslash
/// separates parts as well, or belongs to a name, by the system. A name among the parts is a piece
/// of the path. No more is said of a path that names a drive or a server.
#[verifier::external_body]
fn components(path: &str) -> (r: Components<'_>)
    ensures
        is_portable(path@) ==> parts_left(r) == portable_parts(path@),
        has_no_prefix(path@) ==> are_parts(parts_left(r), path@),
        leads_out(path@) ==> !stays_inside(parts_left(r)),
        are_taken_from(parts_left(r), path@),
{
    Path::new(path).components()
}

/// `Components::next`: the first of the parts that are still to come.
#[verifier::external_body]
fn next_part(c: &mut Components) -> (r: Option<PathPart>)
    ensures
        (match r {
            Some(part) => parts_left(*old(c)).len() > 0 && part@ == parts_left(*old(c))[0]
                && parts_left(*final(c)) == parts_left(*old(c)).drop_first(),
            None => parts_left(*old(c)).len() == 0 && parts_left(*final(c)).len() == 0,
        }),
{
    c.next().map(|part| match part {
        Component::Prefix(_) => PathPart::Prefix,
        Component::RootDir => PathPart::RootDir,
        Component::CurDir => PathPart::CurDir,
        Component::ParentDir => PathPart::ParentDir,
        Component::Normal(name) => PathPart::Normal(name.to_string_lossy().into_owned()),
    })
}

/// The parts of a path.
pub fn path_parts(path: &str) -> (r: Vec<PathPart>)
    ensures
        is_portable(path@) ==> part_models(r@) == portable_parts(path@),
        has_no_prefix(path@) ==> are_parts(part_models(r@), path@),
        leads_out(path@) ==> !stays_inside(part_models(r@)),
        are_taken_from(part_models(r@), path@),
{
    let mut rest = components(path);
    let ghost all = parts_left(rest);
    let mut out: Vec<PathPart> = Vec::new();
    proof {
        assert(part_models(out@) =~= Seq::<PartModel>::empty());
        assert(all =~= part_models(out@) + parts_left(rest));
    }
    loop
        invariant
            all == part_models(out@) + parts_left(rest),
        ensures
            part_models(out@) == all,
        decreases parts_left(rest).len(),
    {
        let ghost left = parts_left(rest);
        match next_part(&mut rest) {
            Some(part) => {
                proof {
                    assert(part_models(out@.push(part)) =~= part_models(out@).push(part@));
                    assert(left =~= seq![part@] + left.drop_first());
                    assert(part_models(out@) + left =~= part_models(out@).push(part@)
                        + left.drop_first());
                }
                out.push(part);
            },
            None => {
                proof {
                    assert(part_models(out@) =~= all);
                }
                break;
            },
        }
    }
    out
}

/// No part leads out of the directory that the path starts from.
pub open spec fn stays_inside(parts: Seq<PartModel>) -> bool {
    forall|i: int|
        0 <= i < parts.len() ==> (#[trigger] parts[i]) is Normal || parts[i] is CurDir
}

/// Whether no part leads out of the directory that the path starts from. An absolute path has a
/// root or a prefix among its parts.
pub fn parts_stay_inside(parts: &Vec<PathPart>) -> (r: bool)
    ensures
        r == stays_inside(part_models(parts@)),
{
    let mut i: usize = 0;
    while i < parts.len()
        invariant
            i <= parts@.len(),
            forall|j: int|
                0 <= j < i ==> (#[trigger] part_models(parts@)[j]) is Normal || part_models(
                    parts@,
                )[j] is CurDir,
        decreases parts@.len() - i,
    {
        let outside = matches!(
            &parts[i],
            PathPart::ParentDir | PathPart::RootDir | PathPart::Prefix
        );
        if outside {
            proof {
                let part = part_models(parts@)[i as int];
                assert(!(part is Normal || part is CurDir));
            }
            return false;
        }
        i = i + 1;
    }
    true
}

/// Whether a path that a peer has sent stays inside the directory that it starts from.
pub fn is_safe_relative(relative_path: &str) -> (r: bool)
    ensures
        is_portable(relative_path@) ==> r == stays_inside(portable_parts(relative_path@)),
        has_no_prefix(relative_path@) ==> r == stays_inside(parts_by(relative_path@, false)) || r
            == stays_inside(parts_by(relative_path@, true)),
        leads_out(relative_path@) ==> !r,
{
    let parts = path_parts(relative_path);
    parts_stay_inside(&parts)
}

/// Refuses a path that leads out of the shared directory.
pub fn validate_relative_path(relative_path: &str) -> (r: AppResult<()>)
    ensures
        is_portable(relative_path@) ==> (r is Ok <==> stays_inside(
            portable_parts(relative_path@),
        )),
        has_no_prefix(relative_path@) ==> r is Ok == stays_inside(parts_by(relative_path@, false))
            || r is Ok == stays_inside(parts_by(relative_path@, true)),
        leads_out(relative_path@) ==> r is Err,
        r matches Err(e) ==> e.is_invalid_input("共享目录相对路径不安全"@),
{
    if is_safe_relative(relative_path) {
        Ok(())
    } else {
        Err(AppError::invalid_input("共享目录相对路径不安全"))
    }
}

/// The names among the parts, with slashes between them.
pub open spec fn protocol_path_of(parts: Seq<PartModel>) -> Seq<char>
    decreases parts.len(),
{
    if parts.len() == 0 {
        Seq::empty()
    } else {
        let front = protocol_path_of(parts.drop_last());
        match parts.last() {
            PartModel::Normal(name) => if has_name(parts.drop_last()) {
                front + seq!['/'] + name
            } else {
                name
            },
            _ => front,
        }
    }
}

/// There is a name among the parts.
pub open spec fn has_name(parts: Seq<PartModel>) -> bool {
    exists|i: int| 0 <= i < parts.len() && (#[trigger] parts[i]) is Normal
}

/// The names among the parts, with slashes between them.
pub fn join_parts(parts: &Vec<PathPart>) -> (r: String)
    ensures
        r@ == protocol_path_of(part_models(parts@)),
{
    let mut out = String::new();
    let mut named = false;
    let mut i: usize = 0;
    let ghost all = part_models(parts@);
    while i < parts.len()
        invariant
            i <= parts@.len(),
            all == part_models(parts@),
            out@ == protocol_path_of(all.take(i as int)),
            named == has_name(all.take(i as int)),
        decreases parts@.len() - i,
    {
        proof {
            let next = all.take(i + 1);
            assert(next.drop_last() =~= all.take(i as int));
            assert(next.last() == parts@[i as int]@);
            assert(has_name(next) == (has_name(all.take(i as int)) || parts@[i as int]@ is Normal))
                by {
                if has_name(all.take(i as int)) {
                    let k = choose|k: int| 0 <= k < i && (#[trigger] all.take(i as int)[k]) is Normal;
                    assert(next[k] is Normal);
                }
                if parts@[i as int]@ is Normal {
                    assert(next[i as int] is Normal);
                }
                if has_name(next) {
                    let k = choose|k: int| 0 <= k < i + 1 && (#[trigger] next[k]) is Normal;
                    if k < i {
                        assert(all.take(i as int)[k] is Normal);
                    }
                }
            }
        }
        if let PathPart::Normal(name) = &parts[i] {
            if named {
                out.push('/');
                out.append(name);
                proof {
                    assert(protocol_path_of(all.take(i as int)).push('/') + name@
                        =~= protocol_path_of(all.take(i as int)) + seq!['/'] + name@);
                }
            } else {
                out = name.clone();
            }
            named = true;
        }
        i = i + 1;
    }
    proof {
        assert(all.take(i as int) =~= all);
    }
    out
}

/// The path in the notation that all devices share.
pub fn path_to_protocol(path: &str) -> (r: String)
    ensures
        is_portable(path@) ==> r@ == protocol_path_of(portable_parts(path@)),
        has_no_prefix(path@) ==> r@ == protocol_path_of(parts_by(path@, false)) || r@
            == protocol_path_of(parts_by(path@, true)),
{
    let parts = path_parts(path);
    join_parts(&parts)
}

/// The name of the file that the parts lead to, where they end in a name.
pub open spec fn base_of(parts: Seq<PartModel>) -> Seq<char> {
    if parts.len() > 0 && parts.last() is Normal {
        parts.last()->Normal_0
    } else {
        UNNAMED@
    }
}

/// The name of the file that the parts lead to, where they end in a name.
pub fn base_name(parts: &Vec<PathPart>) -> (r: String)
    ensures
        r@ == base_of(part_models(parts@)),
{
    if parts.len() > 0 {
        if let PathPart::Normal(name) = &parts[parts.len() - 1] {
            return name.clone();
        }
    }
    String::from_str(UNNAMED)
}

/// A character that no file name may hold.
pub open spec fn is_forbidden(c: char) -> bool {
    ||| text::is_control_char(c)
    ||| c == '<'
    ||| c == '>'
    ||| c == ':'
    ||| c == '"'
    ||| c == '/'
    ||| c == '\\'
    ||| c == '|'
    ||| c == '?'
    ||| c == '*'
}

/// A character of a file name, with an underscore for one that it may not hold.
pub open spec fn cleaned_char(c: char) -> char {
    if is_forbidden(c) {
        '_'
    } else {
        c
    }
}

/// `s` without the dots and spaces at its end.
pub open spec fn without_tail(s: Seq<char>) -> Seq<char>
    decreases s.len(),
{
    if s.len() > 0 && (s.last() == '.' || s.last() == ' ') {
        without_tail(s.drop_last())
    } else {
        s
    }
}

/// What stands before the first dot.
pub open spec fn stem_of(s: Seq<char>) -> Seq<char>
    decreases s.len(),
{
    if s.len() == 0 || s[0] == '.' {
        Seq::empty()
    } else {
        seq![s[0]] + stem_of(s.drop_first())
    }
}

/// The text with its ASCII letters in upper case.
pub open spec fn upper(s: Seq<char>) -> Seq<char> {
    s.map_values(|c: char| text::ascii_upper(c))
}

/// A name that Windows keeps for a device.
pub open spec fn is_reserved(stem: Seq<char>) -> bool {
    ||| stem == seq!['C', 'O', 'N']
    ||| stem == seq!['P', 'R', 'N']
    ||| stem == seq!['A', 'U', 'X']
    ||| stem == seq!['N', 'U', 'L']
    ||| stem.len() == 4 && (stem.take(3) == seq!['C', 'O', 'M'] || stem.take(3) == seq!['L', 'P', 'T'])
        && '1' <= stem[3] <= '9'
}

/// The name before reserved ones are marked.
pub open spec fn cleaned(base: Seq<char>) -> Seq<char> {
    let s = without_tail(text::trimmed(base.map_values(|c: char| cleaned_char(c))));
    if s.len() == 0 {
        UNNAMED@
    } else {
        s
    }
}

/// A name under which a file may be created here.
pub open spec fn sanitized(base: Seq<char>) -> Seq<char> {
    let s = cleaned(base);
    if is_reserved(upper(stem_of(s))) {
        seq!['_'] + s
    } else {
        s
    }
}

fn forbidden(c: char) -> (r: bool)
    ensures
        r == is_forbidden(c),
{
    text::is_control(c) || c == '<' || c == '>' || c == ':' || c == '"' || c == '/' || c == '\\'
        || c == '|' || c == '?' || c == '*'
}

fn reserved(v: &Vec<char>) -> (r: bool)
    ensures
        r == is_reserved(v@),
{
    if v.len() == 3 {
        let a = v[0];
        let b = v[1];
        let c = v[2];
        let r = (a == 'C' && b == 'O' && c == 'N') || (a == 'P' && b == 'R' && c == 'N') || (a
            == 'A' && b == 'U' && c == 'X') || (a == 'N' && b == 'U' && c == 'L');
        proof {
            if r {
                assert(v@ =~= seq![a, b, c]);
            }
        }
        r
    } else if v.len() == 4 {
        let a = v[0];
        let b = v[1];
        let c = v[2];
        let d = v[3];
        let r = ((a == 'C' && b == 'O' && c == 'M') || (a == 'L' && b == 'P' && c == 'T'))
            && '1' <= d && d <= '9';
        proof {
            assert(v@.take(3) =~= seq![a, b, c]);
        }
        r
    } else {
        false
    }
}

fn upper_stem(v: &Vec<char>) -> (r: Vec<char>)
    ensures
        r@ == upper(stem_of(v@)),
{
    let mut out: Vec<char> = Vec::new();
    let mut i: usize = 0;
    proof {
        assert(v@.skip(0) =~= v@);
        assert(upper(stem_of(v@)) =~= out@ + upper(stem_of(v@.skip(0))));
    }
    while i < v.len() && v[i] != '.'
        invariant
            i <= v@.len(),
            upper(stem_of(v@)) == out@ + upper(stem_of(v@.skip(i as int))),
        decreases v@.len() - i,
    {
        let c = text::to_ascii_upper(v[i]);
        proof {
            let rest = v@.skip(i as int);
            assert(rest.drop_first() =~= v@.skip(i + 1));
            assert(stem_of(rest) == seq![rest[0]] + stem_of(rest.drop_first()));
            assert(upper(stem_of(rest)) =~= seq![c] + upper(stem_of(v@.skip(i + 1))));
            assert(out@ + (seq![c] + upper(stem_of(v@.skip(i + 1)))) =~= out@.push(c) + upper(
                stem_of(v@.skip(i + 1)),
            ));
        }
        out.push(c);
        i = i + 1;
    }
    proof {
        assert(stem_of(v@.skip(i as int)) =~= Seq::<char>::empty());
        assert(upper(stem_of(v@)) =~= out@);
    }
    out
}

/// A name under which a file may be created here, made from the last part of a path.
pub fn sanitize_base(base: &str) -> (r: String)
    ensures
        r@ == sanitized(base@),
{
    let given = text::chars_of(base);
    let mut marked: Vec<char> = Vec::new();
    let ghost wanted = base@.map_values(|c: char| cleaned_char(c));
    let mut i: usize = 0;
    while i < given.len()
        invariant
            i <= given@.len(),
            given@ == base@,
            wanted == base@.map_values(|c: char| cleaned_char(c)),
            marked@ == wanted.take(i as int),
        decreases given@.len() - i,
    {
        let c = if forbidden(given[i]) {
            '_'
        } else {
            given[i]
        };
        marked.push(c);
        i = i + 1;
    }
    proof {
        assert(wanted.take(i as int) =~= wanted);
    }
    let trimmed = text::trim_chars(&marked);
    let mut v = text::chars_of(&trimmed);
    while v.len() > 0 && (v[v.len() - 1] == '.' || v[v.len() - 1] == ' ')
        invariant
            without_tail(v@) == without_tail(text::trimmed(wanted)),
        decreases v@.len(),
    {
        let ghost before = v@;
        v.pop();
        proof {
            assert(v@ =~= before.drop_last());
        }
    }
    if v.len() == 0 {
        v = text::chars_of(UNNAMED);
    }
    let stem = upper_stem(&v);
    let name = text::from_chars(&v);
    if reserved(&stem) {
        let out = text::joined("_", &name);
        proof {
            reveal_strlit("_");
            assert("_"@ =~= seq!['_']);
        }
        out
    } else {
        name
    }
}

/// A name under which a file may be created here, made from what a peer calls it.
pub fn sanitize_file_name(name: &str) -> (r: String)
    ensures
        is_portable(name@) ==> r@ == sanitized(base_of(portable_parts(name@))),
        has_no_prefix(name@) ==> r@ == sanitized(base_of(parts_by(name@, false))) || r@ == sanitized(
            base_of(parts_by(name@, true)),
        ),
        is_safe_name(r@),
        has_ascii_spaces_only(name@) ==> sanitized(base_of(portable_parts(r@))) == r@,
{
    let parts = path_parts(name);
    let base = base_name(&parts);
    proof {
        law_sanitized_is_safe(base@);
        if has_ascii_spaces_only(name@) {
            let models = part_models(parts@);
            assert(has_ascii_spaces_only(base@)) by {
                reveal_strlit("未命名文件");
                assert forall|i: int| 0 <= i < base@.len() && text::is_white(
                    #[trigger] base@[i],
                ) implies (base@[i] as u32) < 128 by {
                    if models.len() > 0 && models.last() is Normal {
                        assert(models[models.len() - 1]->Normal_0.contains(base@[i]));
                        let j = name@.index_of(base@[i]);
                        assert(name@[j] == base@[i]);
                    } else {
                        assert(base@ == UNNAMED@);
                    }
                }
            }
            law_sanitizing_again_changes_nothing(base@);
        }
    }
    sanitize_base(&base)
}

proof fn lemma_parent_among(ps: Seq<Seq<char>>, n: nat, k: int)
    requires
        0 <= k < n <= ps.len(),
        ps[k] == seq!['.', '.'],
    ensures
        parts_of(ps, n).contains(PartModel::ParentDir),
    decreases n,
{
    let all = parts_of(ps, n);
    let front = parts_of(ps, (n - 1) as nat);
    if k == n - 1 {
        assert(ps[k] != seq!['.']) by {
            assert(ps[k].len() == 2);
        }
        assert(all.last() == PartModel::ParentDir);
    } else {
        lemma_parent_among(ps, (n - 1) as nat, k);
        let i = front.index_of(PartModel::ParentDir);
        assert(all[i] == PartModel::ParentDir);
    }
}

/// A path that leads out by its notation has a part that leads out.
pub proof fn law_path_that_leads_out_is_refused(s: Seq<char>)
    requires
        is_portable(s),
        leads_out(s),
    ensures
        !stays_inside(portable_parts(s)),
{
    let parts = portable_parts(s);
    if s[0] == '/' && s.len() > 0 {
        assert(parts[0] is RootDir);
    } else {
        let ps = pieces_by(s, false);
        let k = ps.index_of(seq!['.', '.']);
        lemma_parent_among(ps, ps.len(), k);
        let inner = parts_of(ps, ps.len());
        let i = inner.index_of(PartModel::ParentDir);
        assert(parts[i] is ParentDir) by {
            assert(parts =~= inner);
        }
    }
}

/// The name leads to nothing but a file of this name in the directory where it is used.
pub open spec fn is_safe_name(s: Seq<char>) -> bool {
    &&& s.len() > 0
    &&& forall|i: int| 0 <= i < s.len() ==> !is_forbidden(#[trigger] s[i])
    &&& s.last() != '.'
    &&& s.last() != ' '
    &&& !is_reserved(upper(stem_of(s)))
}

proof fn lemma_without_tail(s: Seq<char>)
    ensures
        without_tail(s).len() <= s.len(),
        without_tail(s) == s.take(without_tail(s).len() as int),
        without_tail(s).len() > 0 ==> without_tail(s).last() != '.' && without_tail(s).last()
            != ' ',
    decreases s.len(),
{
    if s.len() > 0 && (s.last() == '.' || s.last() == ' ') {
        lemma_without_tail(s.drop_last());
        let n = without_tail(s).len() as int;
        assert(s.drop_last().take(n) =~= s.take(n));
    } else {
        assert(s.take(s.len() as int) =~= s);
    }
}

proof fn lemma_trim_front(s: Seq<char>)
    ensures
        text::trim_front(s).len() <= s.len(),
        text::trim_front(s) == s.skip(s.len() - text::trim_front(s).len()),
    decreases s.len(),
{
    if s.len() > 0 && text::is_white(s[0]) {
        lemma_trim_front(s.drop_first());
        let n = text::trim_front(s).len();
        assert(s.drop_first().skip(s.len() - 1 - n) =~= s.skip(s.len() - n));
    } else {
        assert(s.skip(0) =~= s);
    }
}

proof fn lemma_trim_back(s: Seq<char>)
    ensures
        text::trim_back(s).len() <= s.len(),
        text::trim_back(s) == s.take(text::trim_back(s).len() as int),
    decreases s.len(),
{
    if s.len() > 0 && text::is_white(s.last()) {
        lemma_trim_back(s.drop_last());
        let n = text::trim_back(s).len() as int;
        assert(s.drop_last().take(n) =~= s.take(n));
    } else {
        assert(s.take(s.len() as int) =~= s);
    }
}

/// Whatever a peer calls a file, the name that is made of it is safe.
pub proof fn law_sanitized_is_safe(base: Seq<char>)
    ensures
        is_safe_name(sanitized(base)),
{
    let marked = base.map_values(|c: char| cleaned_char(c));
    assert forall|i: int| 0 <= i < marked.len() implies !is_forbidden(#[trigger] marked[i]) by {
        assert(!is_forbidden('_'));
    }
    let front = text::trim_front(marked);
    lemma_trim_front(marked);
    let both = text::trim_back(front);
    lemma_trim_back(front);
    let bare = without_tail(both);
    lemma_without_tail(both);
    assert forall|i: int| 0 <= i < bare.len() implies !is_forbidden(#[trigger] bare[i]) by {
        assert(bare[i] == both[i]);
        assert(both[i] == front[i]);
        assert(front[i] == marked[i + marked.len() - front.len()]);
    }
    reveal_strlit("未命名文件");
    let s = cleaned(base);
    if bare.len() == 0 {
        assert(s == UNNAMED@);
        assert(s.len() == 5);
        assert(!is_forbidden('未') && !is_forbidden('命') && !is_forbidden('名') && !is_forbidden('文')
            && !is_forbidden('件'));
        assert(s[0] == '未' && s[1] == '命' && s[2] == '名' && s[3] == '文' && s[4] == '件');
    }
    let r = sanitized(base);
    if is_reserved(upper(stem_of(s))) {
        assert(r == seq!['_'] + s);
        assert(r[0] == '_');
        assert(r.last() == s.last());
        assert(stem_of(r).len() > 0 && stem_of(r)[0] == '_');
        assert(upper(stem_of(r))[0] == '_');
        let u = upper(stem_of(r));
        if is_reserved(u) {
            if u.len() == 4 {
                assert(u.take(3)[0] == '_');
            }
        }
    }
}

/// All white space in the text is ASCII.
pub open spec fn has_ascii_spaces_only(s: Seq<char>) -> bool {
    forall|i: int| 0 <= i < s.len() && text::is_white(#[trigger] s[i]) ==> (s[i] as u32) < 128
}

/// A name that has been made safe stays as it is when it is made safe again, if what it was made
/// from has no white space but that of ASCII.
pub proof fn law_sanitizing_again_changes_nothing(base: Seq<char>)
    requires
        has_ascii_spaces_only(base),
    ensures
        sanitized(sanitized(base)) == sanitized(base),
        base_of(portable_parts(sanitized(base))) == sanitized(base),
{
    let r = sanitized(base);
    law_sanitized_is_safe(base);
    law_safe_name_is_one_part(r);
    let marked = base.map_values(|c: char| cleaned_char(c));
    let front = text::trim_front(marked);
    lemma_trim_front(marked);
    lemma_trim_front_end(marked);
    let both = text::trim_back(front);
    lemma_trim_back(front);
    let bare = without_tail(both);
    lemma_without_tail(both);
    let s = cleaned(base);
    assert(r.map_values(|c: char| cleaned_char(c)) =~= r);
    assert(!text::is_white(r[0]) && !text::is_white(r.last())) by {
        if bare.len() == 0 {
            reveal_strlit("未命名文件");
            assert(s[0] == '未' && s.last() == '件');
            assert(!text::is_white('未') && !text::is_white('件'));
        } else {
            assert(bare[0] == front[0]);
            let k = bare.len() - 1 + marked.len() - front.len();
            assert(bare.last() == marked[k]);
            assert(marked[k] == cleaned_char(base[k]));
            if text::is_white(s.last()) {
                lemma_white_mark(base[k]);
            }
        }
        assert(!text::is_white('_'));
    }
    assert(text::trim_front(r) == r);
    assert(text::trim_back(r) == r);
    assert(without_tail(r) == r);
}

proof fn lemma_trim_front_end(s: Seq<char>)
    ensures
        text::trim_front(s).len() > 0 ==> !text::is_white(text::trim_front(s)[0]),
    decreases s.len(),
{
    if s.len() > 0 && text::is_white(s[0]) {
        lemma_trim_front_end(s.drop_first());
    }
}

proof fn lemma_white_mark(c: char)
    ensures
        text::is_white(cleaned_char(c)) && (c as u32) < 128 ==> cleaned_char(c) == ' ',
        text::is_white(cleaned_char(c)) ==> text::is_white(c),
{
    if c as u32 == 0x20 {
        assert(0x20u32 as char == ' ');
    }
    assert(!text::is_white('_'));
}

proof fn lemma_one_piece(s: Seq<char>)
    requires
        !s.contains('/'),
    ensures
        pieces_by(s, false) == seq![s],
    decreases s.len(),
{
    if s.len() == 0 {
        assert(s =~= Seq::<char>::empty());
    } else {
        let front = s.drop_last();
        assert(!front.contains('/')) by {
            if front.contains('/') {
                let i = front.index_of('/');
                assert(s[i] == '/');
            }
        }
        lemma_one_piece(front);
        assert(s[s.len() - 1] != '/');
        assert(front.push(s.last()) =~= s);
        assert(pieces_by(s, false) =~= seq![s]);
    }
}

/// A safe name is a path of one part, which is the name itself: a file that is created under it
/// stands directly in the directory that it is meant for.
pub proof fn law_safe_name_is_one_part(s: Seq<char>)
    requires
        is_safe_name(s),
    ensures
        is_portable(s),
        portable_parts(s) == seq![PartModel::Normal(s)],
        stays_inside(portable_parts(s)),
{
    assert(!s.contains('/')) by {
        if s.contains('/') {
            let i = s.index_of('/');
            assert(is_forbidden(s[i]));
        }
    }
    assert(!s.contains('\\')) by {
        if s.contains('\\') {
            let i = s.index_of('\\');
            assert(is_forbidden(s[i]));
        }
    }
    if s.len() >= 2 {
        assert(!is_forbidden(s[1]));
    }
    assert(!is_forbidden(s[0]));
    lemma_one_piece(s);
    let ps = pieces_by(s, false);
    assert(ps == seq![s]);
    assert(s != seq!['.']);
    assert(s != seq!['.', '.']);
    assert(part_of(ps[0], true) == Some(PartModel::Normal(s)));
    reveal_with_fuel(parts_of, 2);
    assert(parts_of(ps, 1) =~= seq![PartModel::Normal(s)]);
    assert(portable_parts(s) =~= seq![PartModel::Normal(s)]);
}

/// A character that can stand in the name of a file everywhere.
pub open spec fn is_plain(c: char) -> bool {
    let n = c as u32;
    &&& n >= 32
    &&& !(127 <= n <= 159)
    &&& c != '<' && c != '>' && c != ':' && c != '"' && c != '/' && c != '\\' && c != '|' && c != '?'
        && c != '*'
}

/// Before its first dot, if it has one, the name has so many characters.
pub open spec fn starts_with_stem(s: Seq<char>, n: int) -> bool {
    &&& 0 <= n <= s.len()
    &&& forall|i: int| 0 <= i < n ==> #[trigger] s[i] != '.'
    &&& n < s.len() ==> s[n] == '.'
}

/// The name has no white space at its ends, and no dot at its end.
pub open spec fn has_firm_ends(s: Seq<char>) -> bool {
    &&& s.len() > 0
    &&& !text::is_white(s[0])
    &&& !text::is_white(s.last())
    &&& s.last() != '.'
}

proof fn lemma_stem(s: Seq<char>, n: int)
    requires
        starts_with_stem(s, n),
    ensures
        stem_of(s) == s.take(n),
    decreases s.len(),
{
    if s.len() == 0 || s[0] == '.' {
        assert(n == 0);
        assert(s.take(0) =~= Seq::<char>::empty());
    } else {
        let rest = s.drop_first();
        assert(n > 0);
        assert forall|i: int| 0 <= i < n - 1 implies #[trigger] rest[i] != '.' by {
            assert(s[i + 1] != '.');
        }
        lemma_stem(rest, n - 1);
        assert(seq![s[0]] + rest.take(n - 1) =~= s.take(n));
    }
}

proof fn lemma_firm(s: Seq<char>)
    requires
        has_firm_ends(s),
    ensures
        without_tail(text::trimmed(s)) == s,
{
    assert(text::trim_front(s) == s);
    assert(text::trim_back(s) == s);
    lemma_space_is_white();
    assert(s.last() != ' ');
}

proof fn lemma_space_is_white()
    ensures
        text::is_white(' '),
        !text::is_white('_'),
        !text::is_white('.'),
{
}

proof fn lemma_plain(c: char)
    ensures
        is_plain(c) ==> cleaned_char(c) == c,
        !is_plain(c) ==> cleaned_char(c) == '_',
{
}

/// A name that can stand everywhere is kept as it is.
pub proof fn law_plain_name_is_kept(base: &str, n: int, r: String)
    requires
        call_ensures(sanitize_base, (base,), r),
        has_firm_ends(base@),
        forall|i: int| 0 <= i < base@.len() ==> is_plain(#[trigger] base@[i]),
        starts_with_stem(base@, n),
        n != 3 && n != 4,
    ensures
        r@ == base@,
{
    let s = base@;
    let mapped = s.map_values(|c: char| cleaned_char(c));
    assert forall|i: int| 0 <= i < s.len() implies #[trigger] mapped[i] == s[i] by {
        lemma_plain(s[i]);
    }
    assert(mapped =~= s);
    lemma_firm(s);
    lemma_stem(s, n);
    let stem = upper(stem_of(s));
    assert(stem.len() == n);
}

/// One of two forms of a letter.
pub open spec fn is_either(c: char, large: char, small: char) -> bool {
    c == large || c == small
}

/// The names that are taken by devices, however they are written.
pub open spec fn names_device(s: Seq<char>, n: int) -> bool {
    ||| n == 3 && is_either(s[0], 'C', 'c') && is_either(s[1], 'O', 'o') && is_either(
        s[2],
        'N',
        'n',
    )
    ||| n == 3 && is_either(s[0], 'P', 'p') && is_either(s[1], 'R', 'r') && is_either(
        s[2],
        'N',
        'n',
    )
    ||| n == 3 && is_either(s[0], 'A', 'a') && is_either(s[1], 'U', 'u') && is_either(
        s[2],
        'X',
        'x',
    )
    ||| n == 3 && is_either(s[0], 'N', 'n') && is_either(s[1], 'U', 'u') && is_either(
        s[2],
        'L',
        'l',
    )
    ||| n == 4 && is_either(s[0], 'C', 'c') && is_either(s[1], 'O', 'o') && is_either(
        s[2],
        'M',
        'm',
    ) && '1' <= s[3] <= '9'
    ||| n == 4 && is_either(s[0], 'L', 'l') && is_either(s[1], 'P', 'p') && is_either(
        s[2],
        'T',
        't',
    ) && '1' <= s[3] <= '9'
}

proof fn lemma_upper(c: char)
    ensures
        text::ascii_upper(c) == 'C' <==> is_either(c, 'C', 'c'),
        text::ascii_upper(c) == 'O' <==> is_either(c, 'O', 'o'),
        text::ascii_upper(c) == 'N' <==> is_either(c, 'N', 'n'),
        text::ascii_upper(c) == 'P' <==> is_either(c, 'P', 'p'),
        text::ascii_upper(c) == 'R' <==> is_either(c, 'R', 'r'),
        text::ascii_upper(c) == 'A' <==> is_either(c, 'A', 'a'),
        text::ascii_upper(c) == 'U' <==> is_either(c, 'U', 'u'),
        text::ascii_upper(c) == 'X' <==> is_either(c, 'X', 'x'),
        text::ascii_upper(c) == 'L' <==> is_either(c, 'L', 'l'),
        text::ascii_upper(c) == 'M' <==> is_either(c, 'M', 'm'),
        text::ascii_upper(c) == 'T' <==> is_either(c, 'T', 't'),
        '1' <= text::ascii_upper(c) <= '9' <==> '1' <= c <= '9',
{
}

proof fn lemma_names_device(s: Seq<char>, n: int)
    requires
        starts_with_stem(s, n),
    ensures
        is_reserved(upper(stem_of(s))) <==> names_device(s, n),
{
    lemma_stem(s, n);
    let stem = upper(stem_of(s));
    assert(stem.len() == n);
    if n == 3 || n == 4 {
        assert(stem[0] == text::ascii_upper(s[0]));
        assert(stem[1] == text::ascii_upper(s[1]));
        assert(stem[2] == text::ascii_upper(s[2]));
        lemma_upper(s[0]);
        lemma_upper(s[1]);
        lemma_upper(s[2]);
    }
    if n == 3 {
        assert(stem =~= seq![stem[0], stem[1], stem[2]]);
        assert(stem == seq!['C', 'O', 'N'] <==> stem[0] == 'C' && stem[1] == 'O' && stem[2] == 'N');
        assert(stem == seq!['P', 'R', 'N'] <==> stem[0] == 'P' && stem[1] == 'R' && stem[2] == 'N');
        assert(stem == seq!['A', 'U', 'X'] <==> stem[0] == 'A' && stem[1] == 'U' && stem[2] == 'X');
        assert(stem == seq!['N', 'U', 'L'] <==> stem[0] == 'N' && stem[1] == 'U' && stem[2] == 'L');
    }
    if n == 4 {
        assert(stem[3] == text::ascii_upper(s[3]));
        lemma_upper(s[3]);
        let front = stem.take(3);
        assert(front =~= seq![stem[0], stem[1], stem[2]]);
        assert(front == seq!['C', 'O', 'M'] <==> stem[0] == 'C' && stem[1] == 'O' && stem[2] == 'M');
        assert(front == seq!['L', 'P', 'T'] <==> stem[0] == 'L' && stem[1] == 'P' && stem[2] == 'T');
    }
}

/// Of a name with firm ends, each character that cannot stand everywhere is replaced by a line, and
/// no other is; and a name that is taken by a device gets a line in front, and no other does.
pub proof fn law_only_unsafe_characters_are_replaced(base: &str, n: int, r: String)
    requires
        call_ensures(sanitize_base, (base,), r),
        has_firm_ends(base@),
        starts_with_stem(base@, n),
    ensures
        ({
            let s = base@;
            let m = Seq::new(
                s.len(),
                |i: int|
                    if is_plain(s[i]) {
                        s[i]
                    } else {
                        '_'
                    },
            );
            if names_device(s, n) {
                r@ == seq!['_'] + m
            } else {
                r@ == m
            }
        }),
{
    let s = base@;
    let m = Seq::new(
        s.len(),
        |i: int|
            if is_plain(s[i]) {
                s[i]
            } else {
                '_'
            },
    );
    let mapped = s.map_values(|c: char| cleaned_char(c));
    assert forall|i: int| 0 <= i < s.len() implies #[trigger] mapped[i] == m[i] by {
        lemma_plain(s[i]);
    }
    assert(mapped =~= m);
    lemma_space_is_white();
    assert(has_firm_ends(m));
    lemma_firm(m);
    assert forall|i: int| 0 <= i < n implies #[trigger] m[i] != '.' by {
        assert(s[i] != '.');
    }
    assert(starts_with_stem(m, n));
    lemma_names_device(m, n);
    if n == 3 || n == 4 {
        assert(m[0] == s[0] || m[0] == '_' && !is_plain(s[0]));
        assert(m[1] == s[1] || m[1] == '_' && !is_plain(s[1]));
        assert(m[2] == s[2] || m[2] == '_' && !is_plain(s[2]));
        if n == 4 {
            assert(m[3] == s[3] || m[3] == '_' && !is_plain(s[3]));
        }
        assert(names_device(m, n) <==> names_device(s, n));
    }
}

/// A space in front of a name makes no difference, nor does one behind it.
pub proof fn law_spaces_around_names_are_dropped(
    base: &str,
    with_front: &str,
    with_back: &str,
    plain: String,
    front: String,
    back: String,
)
    requires
        call_ensures(sanitize_base, (base,), plain),
        with_front@ == seq![' '] + base@,
        call_ensures(sanitize_base, (with_front,), front),
        with_back@ == base@ + seq![' '],
        call_ensures(sanitize_base, (with_back,), back),
    ensures
        front@ == plain@,
        back@ == plain@,
{
    let f = |c: char| cleaned_char(c);
    let m = base@.map_values(f);
    lemma_space_is_white();
    lemma_plain(' ');
    assert(with_front@.map_values(f) =~= seq![' '] + m);
    assert((seq![' '] + m).drop_first() =~= m);
    assert(text::trim_front(seq![' '] + m) == text::trim_front(m));
    assert(with_back@.map_values(f) =~= m + seq![' ']);
    lemma_trim_with_space(m);
}

proof fn lemma_trim_with_space(m: Seq<char>)
    ensures
        text::trimmed(m + seq![' ']) == text::trimmed(m),
    decreases m.len(),
{
    lemma_space_is_white();
    let long = m + seq![' '];
    if m.len() > 0 && text::is_white(m[0]) {
        assert(long.drop_first() =~= m.drop_first() + seq![' ']);
        lemma_trim_with_space(m.drop_first());
    } else if m.len() == 0 {
        assert(long.drop_first() =~= m);
        assert(long[0] == ' ');
    } else {
        assert(text::trim_front(long) == long);
        assert(long.drop_last() =~= m);
        assert(long.last() == ' ');
        assert(text::trim_back(long) == text::trim_back(m));
    }
}

/// A name of which nothing is left goes as an unnamed one.
pub proof fn law_blank_name_is_unnamed(base: &str, r: String)
    requires
        call_ensures(sanitize_base, (base,), r),
        forall|i: int| 0 <= i < base@.len() ==> #[trigger] base@[i] == ' ',
    ensures
        r@ == "未命名文件"@,
{
    let s = base@;
    let m = s.map_values(|c: char| cleaned_char(c));
    lemma_plain(' ');
    assert forall|i: int| 0 <= i < m.len() implies #[trigger] m[i] == ' ' by {
        assert(s[i] == ' ');
    }
    lemma_blank(m);
    reveal_strlit("未命名文件");
    assert(UNNAMED@ == "未命名文件"@);
    assert(UNNAMED@.len() == 5);
    assert(starts_with_stem(UNNAMED@, 5));
    lemma_names_device(UNNAMED@, 5);
}

proof fn lemma_blank(m: Seq<char>)
    requires
        forall|i: int| 0 <= i < m.len() ==> #[trigger] m[i] == ' ',
    ensures
        text::trimmed(m).len() == 0,
    decreases m.len(),
{
    lemma_space_is_white();
    if m.len() > 0 {
        assert(m[0] == ' ');
        let rest = m.drop_first();
        assert forall|i: int| 0 <= i < rest.len() implies #[trigger] rest[i] == ' ' by {
            assert(m[i + 1] == ' ');
        }
        lemma_blank(rest);
    }
}

proof fn lemma_last_piece(front: Seq<char>, back: Seq<char>)
    requires
        !back.contains('/'),
    ensures
        pieces_by(front + seq!['/'] + back, false) == pieces_by(front, false).push(back),
    decreases back.len(),
{
    let s = front + seq!['/'] + back;
    if back.len() == 0 {
        assert(s.drop_last() =~= front);
        assert(s.last() == '/');
        assert(back =~= Seq::<char>::empty());
    } else {
        let shorter = back.drop_last();
        assert(!shorter.contains('/')) by {
            if shorter.contains('/') {
                let i = shorter.index_of('/');
                assert(back[i] == '/');
            }
        }
        lemma_last_piece(front, shorter);
        assert(s.drop_last() =~= front + seq!['/'] + shorter);
        assert(back.contains(back[back.len() - 1]));
        assert(s.last() == back.last());
        assert(shorter.push(back.last()) =~= back);
        let ps = pieces_by(front, false).push(shorter);
        assert(ps.drop_last() =~= pieces_by(front, false));
        assert(pieces_by(s, false) =~= pieces_by(front, false).push(back));
    }
}

proof fn lemma_parts_grow(ps: Seq<Seq<char>>, qs: Seq<Seq<char>>, n: nat)
    requires
        n <= ps.len(),
        n <= qs.len(),
        ps.take(n as int) == qs.take(n as int),
    ensures
        parts_of(ps, n) == parts_of(qs, n),
    decreases n,
{
    if n > 0 {
        assert(ps.take(n as int)[n - 1] == qs.take(n as int)[n - 1]);
        assert(ps.take(n - 1) =~= ps.take(n as int).take(n - 1));
        assert(qs.take(n - 1) =~= qs.take(n as int).take(n - 1));
        lemma_parts_grow(ps, qs, (n - 1) as nat);
    }
}

/// The name of a file in a path is what stands behind the last line of the path; a name without one
/// is taken as a whole.
pub proof fn law_last_part_is_the_name(
    path: &str,
    front: Seq<char>,
    base: &str,
    r: String,
    alone: String,
    of_base: String,
)
    requires
        path@ == front + seq!['/'] + base@,
        !path@.contains('\\') && has_no_prefix(path@),
        !base@.contains('/'),
        base@.len() > 0 && base@ != seq!['.'] && base@ != seq!['.', '.'],
        has_no_prefix(base@),
        call_ensures(sanitize_file_name, (path,), r),
        call_ensures(sanitize_file_name, (base,), alone),
        call_ensures(sanitize_base, (base,), of_base),
    ensures
        r@ == of_base@,
        alone@ == of_base@,
{
    let s = path@;
    lemma_last_piece(front, base@);
    let ps = pieces_by(s, false);
    let n = (ps.len() - 1) as nat;
    assert(ps[n as int] == base@);
    if n == 0 {
        lemma_pieces_nonempty(front);
    }
    let parts = portable_parts(s);
    assert(parts_of(ps, ps.len()).last() == PartModel::Normal(base@));
    assert(parts.last() == PartModel::Normal(base@));
    assert(base_of(parts) == base@);
    assert(!base@.contains('\\')) by {
        if base@.contains('\\') {
            let i = base@.index_of('\\');
            assert(s[front.len() + 1 + i] == '\\');
        }
    }
    lemma_one_piece(base@);
    reveal_with_fuel(parts_of, 2);
    let qs = pieces_by(base@, false);
    assert(qs == seq![base@]);
    assert(parts_of(qs, 1) =~= seq![PartModel::Normal(base@)]);
    assert(base@[0] != '/') by {
        assert(base@.contains(base@[0]));
    }
    assert(portable_parts(base@) =~= seq![PartModel::Normal(base@)]);
}

proof fn lemma_pieces_nonempty(s: Seq<char>)
    ensures
        pieces_by(s, false).len() > 0,
    decreases s.len(),
{
    if s.len() > 0 {
        lemma_pieces_nonempty(s.drop_last());
    }
}

/// A path of proper names, one below the other.
pub open spec fn is_proper_path(s: Seq<char>, names: Seq<Seq<char>>) -> bool {
    &&& names.len() > 0
    &&& s == below_each_other(names)
    &&& forall|i: int|
        0 <= i < names.len() ==> {
            let name = #[trigger] names[i];
            &&& name.len() > 0
            &&& name != seq!['.']
            &&& name != seq!['.', '.']
            &&& !name.contains('/')
            &&& !name.contains('\\')
            &&& !name.contains(':')
        }
}

/// The names with a line between each and the next.
pub open spec fn below_each_other(names: Seq<Seq<char>>) -> Seq<char>
    decreases names.len(),
{
    if names.len() == 0 {
        Seq::empty()
    } else if names.len() == 1 {
        names[0]
    } else {
        below_each_other(names.drop_last()) + seq!['/'] + names.last()
    }
}

proof fn lemma_proper(s: Seq<char>, names: Seq<Seq<char>>)
    requires
        is_proper_path(s, names),
    ensures
        pieces_by(s, false) == names,
        parts_of(names, names.len()) == names.map_values(|n: Seq<char>| PartModel::Normal(n)),
        protocol_path_of(names.map_values(|n: Seq<char>| PartModel::Normal(n))) == s,
        s.len() > 0,
        s[0] == names[0][0],
        !s.contains('\\'),
        !s.contains(':'),
        s.len() >= 2 && s[0] == '/' ==> s[1] != '/',
    decreases names.len(),
{
    let f = |n: Seq<char>| PartModel::Normal(n);
    let last = names.last();
    assert(names[names.len() - 1] == last);
    if names.len() == 1 {
        lemma_one_piece(s);
        assert(seq![s] =~= names);
        reveal_with_fuel(parts_of, 2);
        assert(parts_of(names, 1) =~= names.map_values(f));
        let parts = names.map_values(f);
        assert(parts.drop_last() =~= Seq::<PartModel>::empty());
        assert(parts.last() == PartModel::Normal(s));
        assert(!has_name(parts.drop_last()));
    } else {
        let front = names.drop_last();
        let head = below_each_other(front);
        assert forall|i: int| 0 <= i < front.len() implies {
            let name = #[trigger] front[i];
            &&& name.len() > 0
            &&& name != seq!['.']
            &&& name != seq!['.', '.']
            &&& !name.contains('/')
            &&& !name.contains('\\')
            &&& !name.contains(':')
        } by {
            assert(front[i] == names[i]);
        }
        lemma_proper(head, front);
        lemma_last_piece(head, last);
        assert(front.push(last) =~= names);
        assert(names.take(front.len() as int) =~= front);
        assert(front.take(front.len() as int) =~= front);
        lemma_parts_grow(names, front, front.len());
        assert(parts_of(names, names.len()) =~= names.map_values(f));
        let parts = names.map_values(f);
        assert(parts.drop_last() =~= front.map_values(f));
        assert(parts.last() == PartModel::Normal(last));
        assert(parts.drop_last()[0] is Normal);
        assert(has_name(parts.drop_last()));
        assert(s[0] == head[0]);
        assert(names[0] == front[0]);
        if s.contains('\\') {
            let i = s.index_of('\\');
            assert(i < head.len() && head[i] == '\\' || i == head.len() || last[i - head.len() - 1]
                == '\\');
            assert(false);
        }
        if s.contains(':') {
            let i = s.index_of(':');
            assert(i < head.len() && head[i] == ':' || i == head.len() || last[i - head.len() - 1]
                == ':');
            assert(false);
        }
    }
    assert(names[0].contains(names[0][0]));
}

/// A path of proper names stays inside of the directory that it is used in, and is told to other
/// devices as it is.
pub proof fn law_proper_path_is_taken(
    path: &str,
    names: Seq<Seq<char>>,
    safe: bool,
    valid: AppResult<()>,
    told: String,
)
    requires
        is_proper_path(path@, names),
        call_ensures(is_safe_relative, (path,), safe),
        call_ensures(validate_relative_path, (path,), valid),
        call_ensures(path_to_protocol, (path,), told),
    ensures
        safe,
        valid is Ok,
        told@ == path@,
{
    lemma_proper_path(path@, names);
}

/// A path that goes up, or starts at the root, is not taken.
pub proof fn law_outward_path_is_refused(path: &str, safe: bool, valid: AppResult<()>)
    requires
        path@.len() > 0 && path@[0] == '/' || pieces_by(path@, false).contains(seq!['.', '.']),
        call_ensures(is_safe_relative, (path,), safe),
        call_ensures(validate_relative_path, (path,), valid),
    ensures
        !safe,
        valid is Err,
{
}

/// A path of proper names is what it is told as.
pub proof fn lemma_proper_path(s: Seq<char>, names: Seq<Seq<char>>)
    requires
        is_proper_path(s, names),
    ensures
        is_portable(s),
        protocol_path_of(portable_parts(s)) == s,
        stays_inside(portable_parts(s)),
{
    lemma_proper(s, names);
    assert(names[0].contains(names[0][0]));
    assert(s[0] != '/');
    if s.len() >= 2 {
        assert(s.contains(s[1]));
    }
    assert(s.contains(s[0]));
    let parts = names.map_values(|n: Seq<char>| PartModel::Normal(n));
    assert(portable_parts(s) =~= parts);
    assert(stays_inside(parts));
}

} // verus!
