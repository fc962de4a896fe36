//! Filters of lists: the conditions that a query for a list puts on the
//! rows, as text with numbered places for the values, and the values in the
//! order of their numbers.
use crate::step::text_view;
use crate::text::{concat_texts, decimal, decimal_text, str_eq, string_views, texts};
use vstd::prelude::*;

verus! {

/// The conditions of a filter and the values that they speak of: the value
/// at position `i` is the one that the conditions call `$` and `i + 1`.
#[derive(Debug)]
pub struct SqlFilter {
    pub conditions: Vec<String>,
    pub params: Vec<String>,
}

/// Mathematical model of a [`SqlFilter`].
pub struct SqlFilterView {
    pub conditions: Seq<Seq<char>>,
    pub params: Seq<Seq<char>>,
}

impl View for SqlFilter {
    type V = SqlFilterView;

    open spec fn view(&self) -> SqlFilterView {
        SqlFilterView {
            conditions: string_views(self.conditions@),
            params: string_views(self.params@),
        }
    }
}

/// The text in lower case. It stands for what `str::to_lowercase` returns
/// for the text.
pub uninterp spec fn lowercase(text: Seq<char>) -> Seq<char>;

/// Turns a text into lower case with `str::to_lowercase`.
#[verifier::external_body]
fn to_lowercase(text: &str) -> (lower: String)
    ensures
        lower@ == lowercase(text@),
{
    text.to_lowercase()
}

/// The place of the value with the number `number` in a condition.
pub open spec fn placeholder(number: nat) -> Seq<char> {
    seq!['$'] + decimal(number)
}

/// The first `upto` of the pieces of a condition with `hole` between each
/// two of them.
pub open spec fn filled(pieces: Seq<Seq<char>>, hole: Seq<char>, upto: int) -> Seq<char>
    decreases upto,
{
    if upto <= 0 {
        Seq::empty()
    } else if upto == 1 {
        pieces[0]
    } else {
        filled(pieces, hole, upto - 1) + hole + pieces[upto - 1]
    }
}

/// The first `upto` of the texts `parts` with `separator` between each two
/// of them.
pub open spec fn joined(parts: Seq<Seq<char>>, separator: Seq<char>, upto: int) -> Seq<char>
    decreases upto,
{
    filled(parts, separator, upto)
}

/// A filter with one more value and one more condition on it: the pieces
/// of the condition with the place of the new value between each two of
/// them.
pub open spec fn with_condition(
    filter: SqlFilterView,
    param: Seq<char>,
    pieces: Seq<Seq<char>>,
) -> SqlFilterView {
    SqlFilterView {
        conditions: filter.conditions.push(
            filled(pieces, placeholder(filter.params.len() + 1), pieces.len() as int),
        ),
        params: filter.params.push(param),
    }
}

/// A filter with one more condition that speaks of no value.
pub open spec fn with_fixed_condition(filter: SqlFilterView, condition: Seq<char>) -> SqlFilterView {
    SqlFilterView { conditions: filter.conditions.push(condition), params: filter.params }
}

/// The filter that every row passes.
pub open spec fn open_filter() -> SqlFilterView {
    SqlFilterView { conditions: seq!["1=1"@], params: Seq::empty() }
}

/// Whether a query names a value that is not empty.
pub open spec fn is_named(value: Option<Seq<char>>) -> bool {
    value.is_some() && value.unwrap().len() > 0
}

/// `text` between two signs for any run of characters.
pub open spec fn pattern(text: Seq<char>) -> Seq<char> {
    "%"@ + text + "%"@
}

/// The pieces with `hole` between each two of them.
fn fill(pieces: &Vec<&'static str>, hole: &str) -> (text: String)
    ensures
        text@ == filled(texts(pieces@), hole@, pieces@.len() as int),
{
    let mut text = String::new();
    let mut i: usize = 0;
    while i < pieces.len()
        invariant
            i <= pieces.len(),
            text@ == filled(texts(pieces@), hole@, i as int),
        decreases pieces.len() - i,
    {
        let ghost before = text@;
        assert(texts(pieces@)[i as int] == pieces@[i as int]@);
        if i > 0 {
            text.append(hole);
        }
        text.append(pieces[i]);
        assert(text@ =~= filled(texts(pieces@), hole@, i + 1)) by {
            if i == 0 {
                assert(before =~= Seq::<char>::empty());
            }
        }
        i += 1;
    }
    text
}

impl SqlFilter {
    /// The filter that every row passes.
    pub fn open() -> (filter: SqlFilter)
        ensures
            filter@ == open_filter(),
    {
        let filter = SqlFilter { conditions: vec!["1=1".to_owned()], params: Vec::new() };
        assert(filter@.conditions =~= open_filter().conditions);
        assert(filter@.params =~= open_filter().params);
        filter
    }

    /// A filter without conditions.
    pub fn empty() -> (filter: SqlFilter)
        ensures
            filter@.conditions.len() == 0,
            filter@.params.len() == 0,
    {
        SqlFilter { conditions: Vec::new(), params: Vec::new() }
    }

    /// Adds a value and a condition on it: the pieces of the condition with
    /// the place of the value between each two of them.
    pub fn add(&mut self, param: String, pieces: &Vec<&'static str>)
        ensures
            final(self)@ == with_condition(old(self)@, param@, texts(pieces@)),
    {
        proof {
            reveal_strlit("$");
        }
        let number = decimal_text((self.params.len() as u128) + 1);
        let hole = concat_texts("$", number.as_str());
        assert(hole@ =~= placeholder(self.params@.len() + 1));
        let condition = fill(pieces, hole.as_str());
        let ghost before = self@;
        self.params.push(param);
        self.conditions.push(condition);
        assert(self@.params =~= before.params.push(param@));
        assert(self@.conditions =~= before.conditions.push(condition@));
    }

    /// Adds a condition that speaks of no value.
    pub fn add_fixed(&mut self, condition: &str)
        ensures
            final(self)@ == with_fixed_condition(old(self)@, condition@),
    {
        let ghost before = self@;
        self.conditions.push(condition.to_owned());
        assert(self@.conditions =~= before.conditions.push(condition@));
        assert(self@.params =~= before.params);
    }

    /// The conditions with `separator` between each two of them.
    pub fn joined_by(&self, separator: &str) -> (clause: String)
        ensures
            clause@ == joined(self@.conditions, separator@, self@.conditions.len() as int),
    {
        let mut clause = String::new();
        let mut i: usize = 0;
        while i < self.conditions.len()
            invariant
                i <= self.conditions.len(),
                clause@ == joined(self@.conditions, separator@, i as int),
            decreases self.conditions.len() - i,
        {
            let ghost before = clause@;
            assert(self@.conditions[i as int] == self.conditions@[i as int]@);
            if i > 0 {
                clause.append(separator);
            }
            clause.append(self.conditions[i].as_str());
            assert(clause@ =~= joined(self@.conditions, separator@, i + 1)) by {
                if i == 0 {
                    assert(before =~= Seq::<char>::empty());
                }
            }
            i += 1;
        }
        clause
    }

    /// The conditions as one: all of them have to hold.
    pub fn where_clause(&self) -> (clause: String)
        ensures
            clause@ == joined(self@.conditions, " AND "@, self@.conditions.len() as int),
    {
        self.joined_by(" AND ")
    }
}

/// A text between two signs for any run of characters.
fn pattern_text(text: &str) -> (wrapped: String)
    ensures
        wrapped@ == pattern(text@),
{
    let start = concat_texts("%", text);
    concat_texts(start.as_str(), "%")
}

/// Whether a query names a value that is not empty.
fn named(value: &Option<String>) -> (is: bool)
    ensures
        is == is_named(text_view(*value)),
{
    match value {
        Some(text) => text.as_str().unicode_len() > 0,
        None => false,
    }
}

/// What a query for the list of test cases asks for, as far as it filters.
pub struct CaseFilterView {
    pub search: Option<Seq<char>>,
    pub suite: Option<Seq<char>>,
    pub priority: Option<Seq<char>>,
    pub automation: Option<Seq<char>>,
    pub status: Option<Seq<char>>,
}

/// The filter of a list of test cases: a search is for its text anywhere
/// in the title or in the code; the suite has to be the one named; the
/// priority, the kind of automation and the last status have to be the one
/// named, whatever the case of their letters. What the query does not name,
/// or names with the empty text, is not filtered by.
pub open spec fn case_filter_of(query: CaseFilterView) -> SqlFilterView {
    let start = open_filter();
    let searched = if is_named(query.search) {
        with_condition(
            start,
            pattern(query.search.unwrap()),
            seq!["(title ILIKE "@, " OR case_id ILIKE "@, ")"@],
        )
    } else {
        start
    };
    let in_suite = if is_named(query.suite) {
        with_condition(searched, query.suite.unwrap(), seq!["suite = "@, ""@])
    } else {
        searched
    };
    let of_priority = if is_named(query.priority) {
        with_condition(
            in_suite,
            lowercase(query.priority.unwrap()),
            seq!["LOWER(priority) = "@, ""@],
        )
    } else {
        in_suite
    };
    let of_automation = if is_named(query.automation) {
        with_condition(
            of_priority,
            lowercase(query.automation.unwrap()),
            seq!["LOWER(automation) = "@, ""@],
        )
    } else {
        of_priority
    };
    if is_named(query.status) {
        with_condition(
            of_automation,
            lowercase(query.status.unwrap()),
            seq!["LOWER(last_status) = "@, ""@],
        )
    } else {
        of_automation
    }
}

/// The filter of a list of test cases for what `query` asks.
pub fn test_case_filter(query: &crate::test_cases::ListTestCasesQuery) -> (filter: SqlFilter)
    ensures
        filter@ == case_filter_of(
            CaseFilterView {
                search: text_view(query.search_query),
                suite: text_view(query.suite_filter),
                priority: text_view(query.priority_filter),
                automation: text_view(query.automation_filter),
                status: text_view(query.status_filter),
            },
        ),
{
    let mut filter = SqlFilter::open();
    if named(&query.search_query) {
        let pieces = vec!["(title ILIKE ", " OR case_id ILIKE ", ")"];
        assert(texts(pieces@) =~= seq!["(title ILIKE "@, " OR case_id ILIKE "@, ")"@]);
        match &query.search_query {
            Some(text) => filter.add(pattern_text(text.as_str()), &pieces),
            None => {},
        }
    }
    if named(&query.suite_filter) {
        let pieces = vec!["suite = ", ""];
        assert(texts(pieces@) =~= seq!["suite = "@, ""@]);
        match &query.suite_filter {
            Some(text) => filter.add(text.clone(), &pieces),
            None => {},
        }
    }
    if named(&query.priority_filter) {
        let pieces = vec!["LOWER(priority) = ", ""];
        assert(texts(pieces@) =~= seq!["LOWER(priority) = "@, ""@]);
        match &query.priority_filter {
            Some(text) => filter.add(to_lowercase(text.as_str()), &pieces),
            None => {},
        }
    }
    if named(&query.automation_filter) {
        let pieces = vec!["LOWER(automation) = ", ""];
        assert(texts(pieces@) =~= seq!["LOWER(automation) = "@, ""@]);
        match &query.automation_filter {
            Some(text) => filter.add(to_lowercase(text.as_str()), &pieces),
            None => {},
        }
    }
    if named(&query.status_filter) {
        let pieces = vec!["LOWER(last_status) = ", ""];
        assert(texts(pieces@) =~= seq!["LOWER(last_status) = "@, ""@]);
        match &query.status_filter {
            Some(text) => filter.add(to_lowercase(text.as_str()), &pieces),
            None => {},
        }
    }
    filter
}

/// What a query for the queue of reviews asks for, as far as it filters.
pub struct QueueFilterView {
    pub status: Option<Seq<char>>,
    pub search: Option<Seq<char>>,
    pub priority: Option<Seq<char>>,
    pub suite: Option<Seq<char>>,
}

/// Whether a query names a value other than the empty text and `all`.
pub open spec fn is_chosen(value: Option<Seq<char>>) -> bool {
    is_named(value) && value.unwrap() != "all"@
}

/// The filter of the queue of reviews: the state of review is the one
/// named, `pending` where none is named, and `pending` stands for test
/// cases that wait for a first verdict or for one on a revision; a search
/// is for its text anywhere in the title, in the code or in the name of the
/// author; the priority has to be the one named, whatever the case of its
/// letters, and the suite the one named, unless `all` is named.
pub open spec fn queue_filter_of(query: QueueFilterView) -> SqlFilterView {
    let start = SqlFilterView { conditions: Seq::empty(), params: Seq::empty() };
    let status = crate::users::or_else(query.status, "pending"@);
    let in_state = if status == "pending"@ {
        with_fixed_condition(
            start,
            "(review_status = 'pending' OR review_status = 'pending_revision')"@,
        )
    } else {
        with_condition(start, status, seq!["review_status = "@, ""@])
    };
    let searched = if is_named(query.search) {
        with_condition(
            in_state,
            pattern(query.search.unwrap()),
            seq!["(title ILIKE "@, " OR case_id ILIKE "@, " OR u.name ILIKE "@, ")"@],
        )
    } else {
        in_state
    };
    let of_priority = if is_chosen(query.priority) {
        with_condition(
            searched,
            lowercase(query.priority.unwrap()),
            seq!["LOWER(tc.priority) = "@, ""@],
        )
    } else {
        searched
    };
    if is_chosen(query.suite) {
        with_condition(of_priority, query.suite.unwrap(), seq!["tc.suite = "@, ""@])
    } else {
        of_priority
    }
}

/// Whether a query names a value other than the empty text and `all`.
fn chosen(value: &Option<String>) -> (is: bool)
    ensures
        is == is_chosen(text_view(*value)),
{
    match value {
        Some(text) => text.as_str().unicode_len() > 0 && !str_eq(text.as_str(), "all"),
        None => false,
    }
}

/// The filter of the queue of reviews for what `query` asks.
pub fn review_queue_filter(query: &crate::reviews::ReviewQueueQuery) -> (filter: SqlFilter)
    ensures
        filter@ == queue_filter_of(
            QueueFilterView {
                status: text_view(query.status),
                search: text_view(query.search),
                priority: text_view(query.priority),
                suite: text_view(query.suite),
            },
        ),
{
    let mut filter = SqlFilter::empty();
    assert(filter@.conditions =~= Seq::<Seq<char>>::empty());
    assert(filter@.params =~= Seq::<Seq<char>>::empty());
    let status = crate::reviews::queue_status(query);
    if str_eq(status.as_str(), "pending") {
        filter.add_fixed("(review_status = 'pending' OR review_status = 'pending_revision')");
    } else {
        let pieces = vec!["review_status = ", ""];
        assert(texts(pieces@) =~= seq!["review_status = "@, ""@]);
        filter.add(status, &pieces);
    }
    if named(&query.search) {
        let pieces = vec!["(title ILIKE ", " OR case_id ILIKE ", " OR u.name ILIKE ", ")"];
        assert(texts(pieces@) =~= seq![
            "(title ILIKE "@,
            " OR case_id ILIKE "@,
            " OR u.name ILIKE "@,
            ")"@,
        ]);
        match &query.search {
            Some(text) => filter.add(pattern_text(text.as_str()), &pieces),
            None => {},
        }
    }
    if chosen(&query.priority) {
        let pieces = vec!["LOWER(tc.priority) = ", ""];
        assert(texts(pieces@) =~= seq!["LOWER(tc.priority) = "@, ""@]);
        match &query.priority {
            Some(text) => filter.add(to_lowercase(text.as_str()), &pieces),
            None => {},
        }
    }
    if chosen(&query.suite) {
        let pieces = vec!["tc.suite = ", ""];
        assert(texts(pieces@) =~= seq!["tc.suite = "@, ""@]);
        match &query.suite {
            Some(text) => filter.add(text.clone(), &pieces),
            None => {},
        }
    }
    filter
}

/// What a query for the list of users asks for, as far as it filters.
pub struct UserFilterView {
    pub search: Option<Seq<char>>,
    pub role: Option<Seq<char>>,
    pub status: Option<Seq<char>>,
}

/// The filter of a list of users: a search is for its text anywhere in the
/// name or in the address; the role and the status have to be the ones
/// named. Whatever the query names is filtered by, the empty text too.
pub open spec fn user_filter_of(query: UserFilterView) -> SqlFilterView {
    let start = open_filter();
    let searched = if query.search.is_some() {
        with_condition(
            start,
            pattern(query.search.unwrap()),
            seq!["(name ILIKE "@, " OR email ILIKE "@, ")"@],
        )
    } else {
        start
    };
    let of_role = if query.role.is_some() {
        with_condition(searched, query.role.unwrap(), seq!["role = "@, ""@])
    } else {
        searched
    };
    if query.status.is_some() {
        with_condition(of_role, query.status.unwrap(), seq!["status = "@, ""@])
    } else {
        of_role
    }
}

/// The filter of a list of users for what `query` asks.
pub fn user_filter(query: &crate::users::ListUsersQuery) -> (filter: SqlFilter)
    ensures
        filter@ == user_filter_of(
            UserFilterView {
                search: text_view(query.search),
                role: text_view(query.role),
                status: text_view(query.status),
            },
        ),
{
    let mut filter = SqlFilter::open();
    match &query.search {
        Some(text) => {
            let pieces = vec!["(name ILIKE ", " OR email ILIKE ", ")"];
            assert(texts(pieces@) =~= seq!["(name ILIKE "@, " OR email ILIKE "@, ")"@]);
            filter.add(pattern_text(text.as_str()), &pieces);
        },
        None => {},
    }
    match &query.role {
        Some(text) => {
            let pieces = vec!["role = ", ""];
            assert(texts(pieces@) =~= seq!["role = "@, ""@]);
            filter.add(text.clone(), &pieces);
        },
        None => {},
    }
    match &query.status {
        Some(text) => {
            let pieces = vec!["status = ", ""];
            assert(texts(pieces@) =~= seq!["status = "@, ""@]);
            filter.add(text.clone(), &pieces);
        },
        None => {},
    }
    filter
}

/// What is to be changed of a user.
pub struct UserChangeView {
    pub name: Option<Seq<char>>,
    pub email: Option<Seq<char>>,
    pub password_hash: Option<Seq<char>>,
    pub role: Option<Seq<char>>,
}

/// The view of an optional borrowed text.
pub open spec fn wanted(value: Option<&str>) -> Option<Seq<char>> {
    match value {
        Some(text) => Some(text@),
        None => None,
    }
}

/// The assignments that change a user: the time of the change is set, and
/// each part that is named is set to its new value. They are held as the
/// conditions of a filter are, with the values in the order of their
/// numbers.
pub open spec fn user_change_of(change: UserChangeView) -> SqlFilterView {
    let start = SqlFilterView { conditions: seq!["updated_at = NOW()"@], params: Seq::empty() };
    let named = if change.name.is_some() {
        with_condition(start, change.name.unwrap(), seq!["name = "@, ""@])
    } else {
        start
    };
    let addressed = if change.email.is_some() {
        with_condition(named, change.email.unwrap(), seq!["email = "@, ""@])
    } else {
        named
    };
    let hashed = if change.password_hash.is_some() {
        with_condition(addressed, change.password_hash.unwrap(), seq!["password_hash = "@, ""@])
    } else {
        addressed
    };
    if change.role.is_some() {
        with_condition(hashed, change.role.unwrap(), seq!["role = "@, ""@])
    } else {
        hashed
    }
}

/// The assignments that change a user as named.
pub fn user_change(
    name: Option<&str>,
    email: Option<&str>,
    password_hash: Option<&str>,
    role: Option<&str>,
) -> (change: SqlFilter)
    ensures
        change@ == user_change_of(
            UserChangeView {
                name: wanted(name),
                email: wanted(email),
                password_hash: wanted(password_hash),
                role: wanted(role),
            },
        ),
{
    let mut change = SqlFilter::empty();
    change.add_fixed("updated_at = NOW()");
    assert(change@.conditions =~= seq!["updated_at = NOW()"@]);
    assert(change@.params =~= Seq::<Seq<char>>::empty());
    match name {
        Some(text) => {
            let pieces = vec!["name = ", ""];
            assert(texts(pieces@) =~= seq!["name = "@, ""@]);
            change.add(text.to_owned(), &pieces);
        },
        None => {},
    }
    match email {
        Some(text) => {
            let pieces = vec!["email = ", ""];
            assert(texts(pieces@) =~= seq!["email = "@, ""@]);
            change.add(text.to_owned(), &pieces);
        },
        None => {},
    }
    match password_hash {
        Some(text) => {
            let pieces = vec!["password_hash = ", ""];
            assert(texts(pieces@) =~= seq!["password_hash = "@, ""@]);
            change.add(text.to_owned(), &pieces);
        },
        None => {},
    }
    match role {
        Some(text) => {
            let pieces = vec!["role = ", ""];
            assert(texts(pieces@) =~= seq!["role = "@, ""@]);
            change.add(text.to_owned(), &pieces);
        },
        None => {},
    }
    change
}

} // verus!
