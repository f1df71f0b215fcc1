//! Where received files are put.
use crate::ids;
use crate::ids::Uuid;
use crate::lists;
use crate::paths;
use crate::state::AppState;
use crate::text;
use vstd::prelude::*;

verus! {

/// The number of candidates before a random one is taken.
pub const CANDIDATE_LIMIT: usize = 10_000;

/// The place of the dot that sets the extension off: the last one, if it is not at the front.
pub open spec fn extension_dot(name: Seq<char>, n: int) -> Option<int>
    decreases n,
{
    if n <= 1 || n > name.len() {
        None
    } else if name[n - 1] == '.' {
        Some(n - 1)
    } else {
        extension_dot(name, n - 1)
    }
}

/// The candidate for a name when so many have been taken already: the name itself, and then the
/// name with a number before its extension.
pub open spec fn candidate_of(name: Seq<char>, index: nat) -> Seq<char> {
    if index == 0 {
        name
    } else {
        let number = " ("@ + text::decimal_of(index) + ")"@;
        match extension_dot(name, name.len() as int) {
            Some(dot) => name.take(dot) + number + "."@ + name.skip(dot + 1),
            None => name + number,
        }
    }
}

/// The name of last resort, with a fresh identifier in front.
pub open spec fn fallback_of(name: Seq<char>, id: u128) -> Seq<char> {
    ids::hyphenated(id) + "-"@ + name
}

/// The name of the file that data is first written to.
pub open spec fn temporary_of(id: u128) -> Seq<char> {
    ".nearweave-"@ + ids::hyphenated(id) + ".part"@
}

/// A search for a free name.
#[derive(Debug)]
pub struct DestinationSearch {
    pub name: String,
    pub index: usize,
}

/// What a look at the disk has led to.
#[derive(Debug)]
pub enum SearchStep {
    /// The name is reserved.
    Reserved(String),
    /// The next candidate is to be looked at.
    Continue(DestinationSearch),
}

/// The name of the file that data is first written to.
pub fn temporary_name(id: Uuid) -> (r: String)
    ensures
        r@ == temporary_of(id.value),
{
    text::joined3(".nearweave-", &id.to_string(), ".part")
}

/// The candidate for a name when so many have been taken already.
pub fn candidate_name(name: &str, index: usize) -> (r: String)
    ensures
        r@ == candidate_of(name@, index as nat),
{
    if index == 0 {
        return String::from_str(name);
    }
    let v = text::chars_of(name);
    let number = text::joined3(" (", &text::decimal(index as u128), ")");
    let mut n: usize = v.len();
    while n > 1 && v[n - 1] != '.'
        invariant
            n <= v@.len(),
            v@ == name@,
            extension_dot(name@, name@.len() as int) == extension_dot(name@, n as int),
        decreases n,
    {
        n = n - 1;
    }
    if n > 1 {
        let dot: usize = n - 1;
        let stem = text::range_text(&v, 0, dot);
        let extension = text::range_text(&v, n, v.len());
        proof {
            assert(stem@ =~= name@.take(dot as int));
            assert(extension@ =~= name@.skip(dot + 1));
        }
        let mut out = text::joined3(&stem, &number, ".");
        out.append(&extension);
        out
    } else {
        text::joined(name, &number)
    }
}

impl AppState {
    /// The names that are kept for files which are being received.
    pub open spec fn reserved(&self) -> Set<Seq<char>> {
        Set::new(
            |n: Seq<char>| exists|i: int|
                0 <= i < self.reserved_destinations@.len()
                    && (#[trigger] self.reserved_destinations@[i])@ == n,
        )
    }

    /// Whether a name is kept for a file which is being received.
    pub fn is_destination_reserved(&self, name: &str) -> (r: bool)
        ensures
            r == self.reserved().contains(name@),
    {
        let test = |n: &String| -> (b: bool)
            ensures
                b == (n@ == name@),
            { text::same(n, name) };
        let found = lists::position(
            &self.reserved_destinations,
            test,
            Ghost(|n: String| n@ == name@),
        );
        found.is_some()
    }

    fn reserve(&mut self, name: String)
        ensures
            *final(self) == (AppState {
                reserved_destinations: final(self).reserved_destinations,
                ..*old(self)
            }),
            final(self).reserved() == old(self).reserved().insert(name@),
    {
        let ghost before = self.reserved_destinations@;
        self.reserved_destinations.push(name);
        proof {
            let after = self.reserved_destinations@;
            assert forall|n: Seq<char>| self.reserved().contains(n) <==> old(
                self,
            ).reserved().insert(name@).contains(n) by {
                if old(self).reserved().contains(n) {
                    let i = choose|i: int|
                        0 <= i < before.len() && (#[trigger] before[i])@ == n;
                    assert(after[i]@ == n);
                }
                if n == name@ {
                    assert(after[before.len() as int]@ == n);
                }
                if self.reserved().contains(n) {
                    let i = choose|i: int| 0 <= i < after.len() && (#[trigger] after[i])@ == n;
                    if i < before.len() {
                        assert(before[i]@ == n);
                    }
                }
            }
            assert(self.reserved() =~= old(self).reserved().insert(name@));
        }
    }

    /// Gives a name free again.
    pub fn release_reserved_destination(&mut self, name: &str)
        ensures
            *final(self) == (AppState {
                reserved_destinations: final(self).reserved_destinations,
                ..*old(self)
            }),
            final(self).reserved() == old(self).reserved().remove(name@),
    {
        let ghost before = self.reserved_destinations@;
        let keep = |n: &String| -> (b: bool)
            ensures
                b == (n@ != name@),
            { !text::same(n, name) };
        lists::retain(&mut self.reserved_destinations, keep, Ghost(|n: String| n@ != name@));
        proof {
            let p = |n: String| n@ != name@;
            let after = self.reserved_destinations@;
            assert forall|n: Seq<char>| self.reserved().contains(n) <==> old(
                self,
            ).reserved().remove(name@).contains(n) by {
                if self.reserved().contains(n) {
                    let i = choose|i: int| 0 <= i < after.len() && (#[trigger] after[i])@ == n;
                    before.lemma_filter_contains_rev(p, after[i]);
                    before.filter_lemma(p);
                    assert(p(after[i]));
                    let k = before.index_of(after[i]);
                    assert(before[k]@ == n);
                }
                if old(self).reserved().remove(name@).contains(n) {
                    let i = choose|i: int| 0 <= i < before.len() && (#[trigger] before[i])@ == n;
                    before.filter_lemma(p);
                    assert(p(before[i]));
                    assert(after.contains(before[i]));
                    let k = after.index_of(before[i]);
                    assert(after[k]@ == n);
                }
            }
            assert(self.reserved() =~= old(self).reserved().remove(name@));
        }
    }
}

impl DestinationSearch {
    /// Starts with the name itself.
    pub fn new(name: String) -> (r: Self)
        ensures
            r.name == name,
            r.index == 0,
    {
        DestinationSearch { name, index: 0 }
    }

    /// The name that is to be looked for on the disk.
    pub fn candidate(&self) -> (r: String)
        ensures
            r@ == candidate_of(self.name@, self.index as nat),
    {
        candidate_name(&self.name, self.index)
    }

    /// The candidate can be taken: no file has it and none is being received under it.
    pub open spec fn is_free(&self, state: AppState, exists_on_disk: bool) -> bool {
        !exists_on_disk && !state.reserved().contains(
            candidate_of(self.name@, self.index as nat),
        )
    }

    /// What a look at the disk changes, and what it leads to.
    pub open spec fn leads_to(
        &self,
        pre: AppState,
        post: AppState,
        exists_on_disk: bool,
        id: Uuid,
        step: SearchStep,
    ) -> bool {
        match step {
            SearchStep::Reserved(name) => {
                &&& post == (AppState { reserved_destinations: post.reserved_destinations, ..pre })
                &&& post.reserved() == pre.reserved().insert(name@)
                &&& if self.is_free(pre, exists_on_disk) {
                    name@ == candidate_of(self.name@, self.index as nat)
                } else {
                    self.index == CANDIDATE_LIMIT - 1 && name@ == fallback_of(self.name@, id.value)
                }
            },
            SearchStep::Continue(next) => {
                &&& post == pre
                &&& !self.is_free(pre, exists_on_disk)
                &&& next.name == self.name
                &&& next.index == self.index + 1
                &&& next.index < CANDIDATE_LIMIT
            },
        }
    }

    /// Reserves the candidate if it is free; goes on to the next one if not, and after the last
    /// one reserves the name of last resort.
    pub fn answer(self, state: &mut AppState, exists_on_disk: bool, id: Uuid) -> (r: SearchStep)
        requires
            self.index < CANDIDATE_LIMIT,
        ensures
            self.leads_to(*old(state), *final(state), exists_on_disk, id, r),
    {
        let candidate = self.candidate();
        if !exists_on_disk && !state.is_destination_reserved(&candidate) {
            state.reserve(candidate.clone());
            return SearchStep::Reserved(candidate);
        }
        if self.index + 1 < CANDIDATE_LIMIT {
            return SearchStep::Continue(
                DestinationSearch { name: self.name, index: self.index + 1 },
            );
        }
        let name = text::joined3(&id.to_string(), "-", &self.name);
        state.reserve(name.clone());
        SearchStep::Reserved(name)
    }
}

/// Two files that are received at once get different names. A name that is reserved was free: no
/// file on the disk had it when it was looked for, and it was not reserved before. It is a safe
/// name, so that the file stands directly in the directory for received files. The name of last
/// resort is not looked for on the disk; of that it is asked that it is not reserved already.
pub proof fn law_reserved_names_differ(
    first: DestinationSearch,
    second: DestinationSearch,
    start: AppState,
    reserved: AppState,
    later: AppState,
    end: AppState,
    looks: (bool, bool),
    ids: (Uuid, Uuid),
    a: String,
    b: String,
)
    requires
        first.leads_to(start, reserved, looks.0, ids.0, SearchStep::Reserved(a)),
        later.reserved().contains(a@),
        second.leads_to(later, end, looks.1, ids.1, SearchStep::Reserved(b)),
        paths::is_safe_name(second.name@),
        !second.is_free(later, looks.1) ==> !later.reserved().contains(
            fallback_of(second.name@, ids.1.value),
        ),
    ensures
        reserved.reserved().contains(a@),
        b@ != a@,
        !later.reserved().contains(b@),
        end.reserved().contains(a@) && end.reserved().contains(b@),
        second.is_free(later, looks.1) ==> !looks.1,
        paths::is_safe_name(b@),
        paths::portable_parts(b@) == seq![paths::PartModel::Normal(b@)],
{
    lemma_candidate_is_safe(second.name@, second.index as nat);
    lemma_fallback_is_safe(second.name@, ids.1.value);
    paths::law_safe_name_is_one_part(b@);
}

proof fn lemma_stem_of_joined(front: Seq<char>, back: Seq<char>)
    ensures
        front.contains('.') ==> paths::stem_of(front + back) == paths::stem_of(front),
        !front.contains('.') ==> paths::stem_of(front + back) == front + paths::stem_of(back),
    decreases front.len(),
{
    if front.len() == 0 {
        assert(front + back =~= back);
        assert(front + paths::stem_of(back) =~= paths::stem_of(back));
    } else if front[0] == '.' {
        assert(front.contains(front[0]));
    } else {
        let rest = front.drop_first();
        lemma_stem_of_joined(rest, back);
        assert((front + back).drop_first() =~= rest + back);
        assert(front.contains('.') == rest.contains('.')) by {
            if front.contains('.') {
                let i = front.index_of('.');
                assert(rest[i - 1] == '.');
            }
            if rest.contains('.') {
                let i = rest.index_of('.');
                assert(front[i + 1] == '.');
            }
        }
        assert(seq![front[0]] + (rest + paths::stem_of(back)) =~= front + paths::stem_of(back));
    }
}

proof fn lemma_long_stem(stem: Seq<char>, i: int)
    requires
        0 <= i < stem.len(),
        stem[i] == '(' || stem.len() > 4,
    ensures
        !paths::is_reserved(paths::upper(stem)),
{
    let u = paths::upper(stem);
    assert(u.len() == stem.len());
    if stem.len() > 4 {
        assert(seq!['C', 'O', 'N'].len() == 3 && seq!['P', 'R', 'N'].len() == 3);
        assert(seq!['A', 'U', 'X'].len() == 3 && seq!['N', 'U', 'L'].len() == 3);
    } else {
        assert(u[i] == '(');
        assert(i == 0 || i == 1 || i == 2 || i == 3);
        let start = u.take(3);
        if i < 3 {
            assert(stem.len() >= 3 ==> start[i] == '(');
        }
        let con = seq!['C', 'O', 'N'];
        let prn = seq!['P', 'R', 'N'];
        let aux = seq!['A', 'U', 'X'];
        let nul = seq!['N', 'U', 'L'];
        let com = seq!['C', 'O', 'M'];
        let lpt = seq!['L', 'P', 'T'];
        assert(con[0] != '(' && con[1] != '(' && con[2] != '(');
        assert(prn[0] != '(' && prn[1] != '(' && prn[2] != '(');
        assert(aux[0] != '(' && aux[1] != '(' && aux[2] != '(');
        assert(nul[0] != '(' && nul[1] != '(' && nul[2] != '(');
        assert(com[0] != '(' && com[1] != '(' && com[2] != '(');
        assert(lpt[0] != '(' && lpt[1] != '(' && lpt[2] != '(');
    }
}

proof fn lemma_decimal_digits(n: nat)
    ensures
        forall|i: int|
            0 <= i < text::decimal_of(n).len() ==> !paths::is_forbidden(
                #[trigger] text::decimal_of(n)[i],
            ) && text::decimal_of(n)[i] != '.',
    decreases n,
{
    let d = text::digit(n % 10);
    assert(!paths::is_forbidden(d) && d != '.') by {
        lemma_digit(n % 10);
    }
    let all = text::decimal_of(n);
    if n >= 10 {
        lemma_decimal_digits(n / 10);
        let front = text::decimal_of(n / 10);
        assert forall|i: int| 0 <= i < all.len() implies !paths::is_forbidden(#[trigger] all[i])
            && all[i] != '.' by {
            if i < front.len() {
                assert(all[i] == front[i]);
            }
        }
    } else {
        assert(n % 10 == n);
        assert(all =~= seq![d]);
    }
}

proof fn lemma_digit(d: nat)
    requires
        d < 10,
    ensures
        text::digit(d) as u32 == 48 + d,
        !paths::is_forbidden(text::digit(d)),
        text::digit(d) != '.',
{
}

proof fn lemma_dot(name: Seq<char>, n: int)
    ensures
        match extension_dot(name, n) {
            Some(dot) => 0 < dot < n && n <= name.len() && name[dot] == '.',
            None => true,
        },
    decreases n,
{
    if 1 < n <= name.len() && name[n - 1] != '.' {
        lemma_dot(name, n - 1);
    }
}

proof fn lemma_candidate_is_safe(name: Seq<char>, index: nat)
    requires
        paths::is_safe_name(name),
    ensures
        paths::is_safe_name(candidate_of(name, index)),
{
    if index > 0 {
        reveal_strlit(" (");
        reveal_strlit(")");
        reveal_strlit(".");
        let digits = text::decimal_of(index);
        let number = " ("@ + digits + ")"@;
        lemma_decimal_digits(index);
        let r = candidate_of(name, index);
        assert(!paths::is_forbidden(' ') && !paths::is_forbidden('(') && !paths::is_forbidden(')')
            && !paths::is_forbidden('.'));
        assert forall|i: int| 0 <= i < number.len() implies !paths::is_forbidden(
            #[trigger] number[i],
        ) && number[i] != '.' by {
            if 2 <= i < number.len() - 1 {
                assert(number[i] == digits[i - 2]);
            }
        }
        assert(number[1] == '(');
        lemma_dot(name, name.len() as int);
        match extension_dot(name, name.len() as int) {
            Some(dot) => {
                let front = name.take(dot);
                let back = number + ("."@ + name.skip(dot + 1));
                assert(r =~= front + back);
                assert(name.last() != '.');
                assert(r.last() == name.last());
                assert forall|i: int| 0 <= i < r.len() implies !paths::is_forbidden(
                    #[trigger] r[i],
                ) by {
                    if i < dot {
                        assert(r[i] == name[i]);
                    } else if i < dot + number.len() {
                        assert(r[i] == number[i - dot]);
                    } else if i > dot + number.len() {
                        assert(r[i] == name[i - number.len()]);
                    }
                }
                lemma_stem_of_joined(front, back);
                if front.contains('.') {
                    lemma_stem_of_joined(front, name.skip(dot));
                    assert(front + name.skip(dot) =~= name);
                } else {
                    assert(!number.contains('.')) by {
                        if number.contains('.') {
                            let i = number.index_of('.');
                            assert(number[i] != '.');
                        }
                    }
                    lemma_stem_of_joined(number, "."@ + name.skip(dot + 1));
                    let stem = paths::stem_of(r);
                    assert(stem[dot + 1] == '(');
                    lemma_long_stem(stem, dot + 1);
                }
            },
            None => {
                assert(r =~= name + number);
                assert(r.last() == ')');
                assert forall|i: int| 0 <= i < r.len() implies !paths::is_forbidden(
                    #[trigger] r[i],
                ) by {
                    if i < name.len() {
                        assert(r[i] == name[i]);
                    } else {
                        assert(r[i] == number[i - name.len()]);
                    }
                }
                lemma_stem_of_joined(name, number);
                if !name.contains('.') {
                    assert(!number.contains('.')) by {
                        if number.contains('.') {
                            let i = number.index_of('.');
                            assert(number[i] != '.');
                        }
                    }
                    lemma_stem_of_joined(number, Seq::empty());
                    assert(number + Seq::<char>::empty() =~= number);
                    assert(number + paths::stem_of(Seq::<char>::empty()) =~= number);
                    let stem = paths::stem_of(r);
                    assert(stem[name.len() as int + 1] == '(');
                    lemma_long_stem(stem, name.len() as int + 1);
                }
            },
        }
    }
}

proof fn lemma_fallback_is_safe(name: Seq<char>, id: u128)
    requires
        paths::is_safe_name(name),
    ensures
        paths::is_safe_name(fallback_of(name, id)),
{
    reveal_strlit("-");
    let mark = ids::hyphenated(id);
    ids::lemma_hyphenated(id);
    let r = fallback_of(name, id);
    let front = mark + "-"@;
    assert(!paths::is_forbidden('-'));
    assert(r =~= front + name);
    assert(r.last() == name.last());
    assert forall|i: int| 0 <= i < front.len() implies front[i] != '.' && !paths::is_forbidden(
        #[trigger] front[i],
    ) by {
        if i < mark.len() {
            assert(front[i] == mark[i]);
            lemma_mark(mark[i]);
        }
    }
    assert forall|i: int| 0 <= i < r.len() implies !paths::is_forbidden(#[trigger] r[i]) by {
        if i < front.len() {
            assert(r[i] == front[i]);
        } else {
            assert(r[i] == name[i - front.len()]);
        }
    }
    assert(!front.contains('.')) by {
        if front.contains('.') {
            let i = front.index_of('.');
            assert(front[i] != '.');
        }
    }
    lemma_stem_of_joined(front, name);
    lemma_long_stem(paths::stem_of(r), 0);
}

proof fn lemma_mark(c: char)
    requires
        ids::is_mark(c),
    ensures
        c != '.',
        !paths::is_forbidden(c),
{
}

proof fn lemma_extension(stem: Seq<char>, ext: Seq<char>, n: int)
    requires
        stem.len() > 0,
        !ext.contains('.'),
        stem.len() < n <= stem.len() + 1 + ext.len(),
    ensures
        extension_dot(stem + seq!['.'] + ext, n) == Some(stem.len() as int),
    decreases n,
{
    let name = stem + seq!['.'] + ext;
    if n > stem.len() + 1 {
        assert(name[n - 1] == ext[n - 2 - stem.len()]);
        assert(ext.contains(ext[n - 2 - stem.len()]));
        lemma_extension(stem, ext, n - 1);
    } else {
        assert(name[n - 1] == '.');
    }
}

/// The number of a candidate stands before the extension of the name, which is kept.
pub proof fn law_extension_is_kept(
    name: &str,
    stem: Seq<char>,
    ext: Seq<char>,
    index: usize,
    r: String,
)
    requires
        call_ensures(candidate_name, (name, index), r),
        name@ == stem + seq!['.'] + ext,
        stem.len() > 0,
        !ext.contains('.'),
        index > 0,
    ensures
        r@ == stem + " ("@ + text::decimal_of(index as nat) + ")."@ + ext,
{
    let s = name@;
    lemma_extension(stem, ext, s.len() as int);
    reveal_strlit(").");
    reveal_strlit(")");
    reveal_strlit(".");
    assert(s.take(stem.len() as int) =~= stem);
    assert(s.skip(stem.len() as int + 1) =~= ext);
    assert(r@ =~= stem + " ("@ + text::decimal_of(index as nat) + ")."@ + ext);
}

/// A name without an extension gets the number behind it, and the first candidate is the name as it
/// is.
pub proof fn law_number_follows_the_name(name: &str, index: usize, r: String, first: String)
    requires
        call_ensures(candidate_name, (name, index), r),
        call_ensures(candidate_name, (name, 0usize), first),
        !name@.contains('.'),
        index > 0,
    ensures
        first@ == name@,
        r@ == name@ + " ("@ + text::decimal_of(index as nat) + ")"@,
{
    lemma_no_extension(name@, name@.len() as int);
    assert(r@ =~= name@ + " ("@ + text::decimal_of(index as nat) + ")"@);
}

proof fn lemma_no_extension(name: Seq<char>, n: int)
    requires
        !name.contains('.'),
    ensures
        extension_dot(name, n) is None,
    decreases n,
{
    if 1 < n <= name.len() {
        assert(name.contains(name[n - 1]));
        lemma_no_extension(name, n - 1);
    }
}

/// No two candidates for a name are the same.
pub proof fn law_candidates_differ(name: &str, i: usize, j: usize, a: String, b: String)
    requires
        call_ensures(candidate_name, (name, i), a),
        call_ensures(candidate_name, (name, j), b),
        i < j,
    ensures
        a@ != b@,
{
    let s = name@;
    reveal_strlit(" (");
    reveal_strlit(")");
    reveal_strlit(".");
    let y = text::decimal_of(j as nat);
    text::lemma_decimal_value(i as nat);
    text::lemma_decimal_value(j as nat);
    lemma_dot(s, s.len() as int);
    let (at, tail) = match extension_dot(s, s.len() as int) {
        Some(dot) => (dot, "."@ + s.skip(dot + 1)),
        None => (s.len() as int, Seq::<char>::empty()),
    };
    assert(b@ =~= s.take(at) + " ("@ + y + ")"@ + tail);
    assert(b@.len() == s.len() + 3 + y.len());
    if i > 0 {
        let x = text::decimal_of(i as nat);
        assert(a@ =~= s.take(at) + " ("@ + x + ")"@ + tail);
        if a@ == b@ {
            assert(x.len() == y.len());
            assert(a@.subrange(at + 2, at + 2 + x.len()) =~= x);
            assert(b@.subrange(at + 2, at + 2 + y.len()) =~= y);
            assert(x == y);
        }
    }
}

/// The first candidate that is neither there nor reserved is taken; one that is there or reserved is
/// passed over for the next.
pub proof fn law_first_free_candidate_is_taken(
    search: DestinationSearch,
    candidate: String,
    looked_up: &str,
    taken: bool,
    state: &mut AppState,
    on_disk: bool,
    id: Uuid,
    r: SearchStep,
)
    requires
        call_ensures(DestinationSearch::candidate, (&search,), candidate),
        looked_up@ == candidate@,
        call_ensures(AppState::is_destination_reserved, (old(state), looked_up), taken),
        call_ensures(DestinationSearch::answer, (search, state, on_disk, id), r),
        search.index < 9999,
    ensures
        !on_disk && !taken ==> (r matches SearchStep::Reserved(name) && name@ == candidate@),
        on_disk || taken ==> (r matches SearchStep::Continue(next) && next.name == search.name
            && next.index == search.index + 1 && *final(state) == *old(state)),
{
}

/// A name is reserved from the moment that it was taken until it is given free, and no other name is
/// reserved or given free with it.
pub proof fn law_name_is_reserved_until_released(
    search: DestinationSearch,
    state: &mut AppState,
    next: &mut AppState,
    on_disk: bool,
    id: Uuid,
    name: String,
    text: &str,
    other: Seq<char>,
    reserved: bool,
    after: bool,
)
    requires
        call_ensures(
            DestinationSearch::answer,
            (search, state, on_disk, id),
            SearchStep::Reserved(name),
        ),
        text@ == name@,
        call_ensures(AppState::is_destination_reserved, (final(state), text), reserved),
        *next == *final(state),
        call_ensures(AppState::release_reserved_destination, (next, text), ()),
        call_ensures(AppState::is_destination_reserved, (final(next), text), after),
        other != name@,
    ensures
        reserved,
        !after,
        final(next).reserved().contains(other) <==> old(state).reserved().contains(other),
{
}

/// Data is first written to a hidden file that shows by its name what it is.
pub proof fn law_temporary_name_is_marked(id: Uuid, r: String)
    requires
        call_ensures(temporary_name, (id,), r),
    ensures
        r@.len() == 52,
        r@.take(11) == ".nearweave-"@,
        r@.skip(47) == ".part"@,
        r@.subrange(11, 47) == ids::hyphenated(id.value),
{
    ids::lemma_hyphenated(id.value);
    reveal_strlit(".nearweave-");
    reveal_strlit(".part");
    assert(r@.take(11) =~= ".nearweave-"@);
    assert(r@.skip(47) =~= ".part"@);
    assert(r@.subrange(11, 47) =~= ids::hyphenated(id.value));
}

} // verus!
