use vstd::prelude::*;
use vstd::string::StringExecFns;

verus! {

/// How far along a todo is.
#[derive(Clone, Copy, Debug, PartialEq, Eq, Structural)]
pub enum TodoStatus {
    Pending,
    InProgress,
    Done,
}

/// One task: an identifier used for lookup only, a title and a status.
#[derive(Debug)]
pub struct Todo {
    pub id: u128,
    pub title: String,
    pub status: TodoStatus,
}

/// The error of a store operation addressed to an id that no todo holds.
#[derive(Clone, Copy, Debug, PartialEq, Eq)]
pub struct NotFound;

/// The bits that mark a value as a version-4, RFC 4122 variant identifier.
pub open spec fn is_v4_id(v: u128) -> bool {
    (v >> 76u128) & 0xfu128 == 4u128 && (v >> 62u128) & 0x3u128 == 2u128
}

/// Relies on uuid::Uuid::new_v4 (a random identifier with its version and
/// variant bits set) read back with Uuid::as_u128.
#[verifier::external_body]
fn random_id() -> (r: u128)
    ensures
        is_v4_id(r),
{
    uuid::Uuid::new_v4().as_u128()
}

impl Todo {
    /// A todo with a fresh random identifier.
    pub fn new(title: &str, status: TodoStatus) -> (r: Todo)
        ensures
            r.title@ == title@,
            r.status == status,
            is_v4_id(r.id),
    {
        Todo { id: random_id(), title: String::from_str(title), status }
    }

    pub fn id(&self) -> (r: u128)
        ensures
            r == self.id,
    {
        self.id
    }
}

/// The character of a decimal digit.
pub open spec fn digit_char(d: nat) -> char {
    seq!['0', '1', '2', '3', '4', '5', '6', '7', '8', '9'][d as int]
}

/// The decimal notation of `n`, without leading zeros.
pub open spec fn decimal(n: nat) -> Seq<char>
    decreases n,
{
    if n < 10 {
        seq![digit_char(n)]
    } else {
        decimal(n / 10).push(digit_char(n % 10))
    }
}

/// The one-character text of the decimal digit `d`.
fn digit_string(d: usize) -> (r: String)
    requires
        d < 10,
    ensures
        r@ == seq![digit_char(d as nat)],
{
    if d == 0 {
        proof {
            reveal_strlit("0");
        }
        String::from_str("0")
    } else if d == 1 {
        proof {
            reveal_strlit("1");
        }
        String::from_str("1")
    } else if d == 2 {
        proof {
            reveal_strlit("2");
        }
        String::from_str("2")
    } else if d == 3 {
        proof {
            reveal_strlit("3");
        }
        String::from_str("3")
    } else if d == 4 {
        proof {
            reveal_strlit("4");
        }
        String::from_str("4")
    } else if d == 5 {
        proof {
            reveal_strlit("5");
        }
        String::from_str("5")
    } else if d == 6 {
        proof {
            reveal_strlit("6");
        }
        String::from_str("6")
    } else if d == 7 {
        proof {
            reveal_strlit("7");
        }
        String::from_str("7")
    } else if d == 8 {
        proof {
            reveal_strlit("8");
        }
        String::from_str("8")
    } else {
        proof {
            reveal_strlit("9");
        }
        String::from_str("9")
    }
}

/// The decimal notation of `n`.
fn decimal_string(n: usize) -> (r: String)
    ensures
        r@ == decimal(n as nat),
    decreases n,
{
    if n < 10 {
        digit_string(n)
    } else {
        let last = digit_string(n % 10);
        let r = decimal_string(n / 10).concat(last.as_str());
        assert(r@ =~= decimal(n as nat));
        r
    }
}

/// Some todo of `todos` carries `id`.
pub open spec fn contains_id(todos: Seq<Todo>, id: u128) -> bool {
    exists|i: int| 0 <= i < todos.len() && #[trigger] todos[i].id == id
}

/// No two todos of `todos` share an id.
pub open spec fn unique_ids(todos: Seq<Todo>) -> bool {
    forall|i: int, j: int|
        0 <= i < todos.len() && 0 <= j < todos.len() && i != j ==> #[trigger] todos[i].id
            != #[trigger] todos[j].id
}

/// The todos of `todos` whose status is `status`, in their order.
pub open spec fn with_status(todos: Seq<Todo>, status: TodoStatus) -> Seq<Todo> {
    todos.filter(|t: Todo| t.status == status)
}

/// `todos` with the status of its `i`-th todo replaced.
pub open spec fn status_updated(todos: Seq<Todo>, i: int, status: TodoStatus) -> Seq<Todo> {
    todos.update(i, Todo { id: todos[i].id, title: todos[i].title, status })
}

/// When the values `0 .. k` all occur in `issued`, it has at least `k` entries.
proof fn lemma_ids_below_bound(issued: Seq<u128>, k: int)
    requires
        0 <= k,
        k <= u128::MAX,
        forall|j: u128| j < k ==> #[trigger] issued.contains(j),
    ensures
        k <= issued.len(),
{
    let ids = issued.map_values(|v: u128| v as int);
    let range = vstd::set_lib::set_int_range(0, k);
    vstd::set_lib::lemma_int_range(0, k);
    ids.lemma_cardinality_of_set();
    assert forall|j: int| range.contains(j) implies ids.to_set().contains(j) by {
        assert(issued.contains(j as u128));
        let i = choose|i: int| 0 <= i < issued.len() && #[trigger] issued[i] == j as u128;
        assert(ids[i] == j);
    }
    vstd::seq_lib::seq_to_set_is_finite(ids);
    vstd::set_lib::lemma_len_subset(range, ids.to_set());
}


/// The three status views of a list partition it: their lengths add up to
/// the list's length, each todo appears in the view of its own status, and
/// each view holds only todos of the list that have its status.
pub proof fn lemma_status_views_partition(todos: Seq<Todo>)
    ensures
        with_status(todos, TodoStatus::Pending).len() + with_status(todos, TodoStatus::InProgress).len()
            + with_status(todos, TodoStatus::Done).len() == todos.len(),
        forall|i: int|
            0 <= i < todos.len() ==> with_status(todos, todos[i].status).contains(#[trigger] todos[i]),
        forall|status: TodoStatus, t: Todo|
            #[trigger] with_status(todos, status).contains(t) ==> todos.contains(t) && t.status == status,
    decreases todos.len(),
{
    broadcast use vstd::seq_lib::group_filter_ensures;

    reveal(Seq::filter);
    if todos.len() > 0 {
        lemma_status_views_partition(todos.drop_last());
    }
    assert forall|i: int| 0 <= i < todos.len() implies with_status(todos, todos[i].status).contains(
        #[trigger] todos[i],
    ) by {
        todos.lemma_filter_contains(|t: Todo| t.status == todos[i].status, i);
    }
    assert forall|status: TodoStatus, t: Todo|
        #[trigger] with_status(todos, status).contains(t) implies todos.contains(t) && t.status
        == status by {
        todos.lemma_filter_contains_rev(|t: Todo| t.status == status, t);
        let f = with_status(todos, status);
        let k = choose|k: int| 0 <= k < f.len() && f[k] == t;
        todos.lemma_filter_pred(|t: Todo| t.status == status, k);
    }
}

/// A list whose ids are distinct has views whose ids are distinct.
pub proof fn lemma_views_keep_unique_ids(todos: Seq<Todo>, status: TodoStatus)
    requires
        unique_ids(todos),
    ensures
        unique_ids(with_status(todos, status)),
    decreases todos.len(),
{
    reveal(Seq::filter);
    if todos.len() > 0 {
        let rest = todos.drop_last();
        let last = todos.last();
        assert(unique_ids(rest)) by {
            assert forall|i: int, j: int|
                0 <= i < rest.len() && 0 <= j < rest.len() && i != j implies #[trigger] rest[i].id
                != #[trigger] rest[j].id by {
                assert(rest[i] == todos[i] && rest[j] == todos[j]);
            }
        }
        lemma_views_keep_unique_ids(rest, status);
        let sub = with_status(rest, status);
        if last.status == status {
            assert forall|k: int| 0 <= k < sub.len() implies #[trigger] sub[k].id != last.id by {
                assert(sub.contains(sub[k]));
                rest.lemma_filter_contains_rev(|t: Todo| t.status == status, sub[k]);
                let m = choose|m: int| 0 <= m < rest.len() && rest[m] == sub[k];
                assert(todos[m] == rest[m]);
                assert(todos[todos.len() - 1] == last);
            }
            let f = with_status(todos, status);
            assert(f == sub.push(last));
            assert forall|i: int, j: int|
                0 <= i < f.len() && 0 <= j < f.len() && i != j implies #[trigger] f[i].id
                != #[trigger] f[j].id by {
                if i == f.len() - 1 {
                    assert(sub[j].id != last.id);
                } else if j == f.len() - 1 {
                    assert(sub[i].id != last.id);
                } else {
                    assert(f[i] == sub[i] && f[j] == sub[j]);
                }
            }
        }
    }
}

/// Appending a todo appends it to the view of its status, after the todos
/// already there, and leaves the other views as they were.
pub proof fn lemma_append_extends_view(todos: Seq<Todo>, t: Todo, status: TodoStatus)
    ensures
        with_status(todos.push(t), status) == if t.status == status {
            with_status(todos, status).push(t)
        } else {
            with_status(todos, status)
        },
{
    reveal(Seq::filter);
    assert(todos.push(t).drop_last() =~= todos);
}

/// A list in which no todo carries `id` has no view that holds a todo with it.
pub proof fn lemma_absent_id_in_no_view(todos: Seq<Todo>, id: u128, status: TodoStatus)
    requires
        !contains_id(todos, id),
    ensures
        forall|i: int|
            0 <= i < with_status(todos, status).len() ==> #[trigger] with_status(todos, status)[i].id
                != id,
{
    assert forall|i: int| 0 <= i < with_status(todos, status).len() implies #[trigger] with_status(
        todos,
        status,
    )[i].id != id by {
        let t = with_status(todos, status)[i];
        assert(with_status(todos, status).contains(t));
        todos.lemma_filter_contains_rev(|t: Todo| t.status == status, t);
        let k = choose|k: int| 0 <= k < todos.len() && todos[k] == t;
        assert(todos[k].id == t.id);
    }
}

/// After the status of the `i`-th todo is set to `status`, the view of
/// `status` holds that todo.
pub proof fn lemma_updated_todo_in_view(todos: Seq<Todo>, i: int, status: TodoStatus)
    requires
        0 <= i < todos.len(),
    ensures
        with_status(status_updated(todos, i, status), status).contains(
            status_updated(todos, i, status)[i],
        ),
{
    let u = status_updated(todos, i, status);
    u.lemma_filter_contains(|t: Todo| t.status == status, i);
}

/// The todos of `todos` that do not carry `id`, in their order.
pub open spec fn without_id(todos: Seq<Todo>, id: u128) -> Seq<Todo> {
    todos.filter(|t: Todo| t.id != id)
}

/// A list in which no todo carries `id` loses nothing when it is taken out.
proof fn lemma_without_absent_id(todos: Seq<Todo>, id: u128)
    requires
        !contains_id(todos, id),
    ensures
        without_id(todos, id) == todos,
    decreases todos.len(),
{
    reveal(Seq::filter);
    if todos.len() > 0 {
        let rest = todos.drop_last();
        assert(!contains_id(rest, id)) by {
            if contains_id(rest, id) {
                let k = choose|k: int| 0 <= k < rest.len() && #[trigger] rest[k].id == id;
                assert(todos[k].id == id);
            }
        }
        lemma_without_absent_id(rest, id);
        assert(todos.last().id != id);
        assert(rest.push(todos.last()) =~= todos);
    }
}

/// Filtering a one-todo list keeps it when the todo passes and empties it
/// otherwise.
proof fn lemma_filter_single(t: Todo, pred: spec_fn(Todo) -> bool)
    ensures
        seq![t].filter(pred) == (if pred(t) {
            seq![t]
        } else {
            Seq::<Todo>::empty()
        }),
{
    reveal(Seq::filter);
    let e = Seq::<Todo>::empty();
    assert(e.filter(pred) == e);
    assert(seq![t].drop_last() =~= e);
    assert(e.push(t) =~= seq![t]);
}

/// A single todo that carries `id` leaves nothing when it is taken out.
proof fn lemma_without_single(t: Todo, id: u128)
    requires
        t.id == id,
    ensures
        without_id(seq![t], id) == Seq::<Todo>::empty(),
{
    lemma_filter_single(t, |u: Todo| u.id != id);
}

/// The view of `status` of a list whose todos all differ from `id` in theirs.
proof fn lemma_view_without_id(part: Seq<Todo>, id: u128, status: TodoStatus)
    requires
        !contains_id(part, id),
    ensures
        without_id(with_status(part, status), id) == with_status(part, status),
{
    lemma_absent_id_in_no_view(part, id, status);
    let v = with_status(part, status);
    assert(!contains_id(v, id));
    lemma_without_absent_id(v, id);
}

/// In a list with distinct ids, the todos before and after position `i`
/// do not carry the id of the `i`-th.
proof fn lemma_sides_lack_id(todos: Seq<Todo>, i: int)
    requires
        unique_ids(todos),
        0 <= i < todos.len(),
    ensures
        !contains_id(todos.subrange(0, i), todos[i].id),
        !contains_id(todos.subrange(i + 1, todos.len() as int), todos[i].id),
{
    let a = todos.subrange(0, i);
    let b = todos.subrange(i + 1, todos.len() as int);
    if contains_id(a, todos[i].id) {
        let k = choose|k: int| 0 <= k < a.len() && #[trigger] a[k].id == todos[i].id;
        assert(todos[k] == a[k]);
    }
    if contains_id(b, todos[i].id) {
        let k = choose|k: int| 0 <= k < b.len() && #[trigger] b[k].id == todos[i].id;
        assert(todos[i + 1 + k] == b[k]);
    }
}

/// In a list with distinct ids, taking out the `i`-th todo leaves each
/// status view as it was without that todo's id: the id is gone from every
/// view and the other todos keep their order.
pub proof fn lemma_remove_view(todos: Seq<Todo>, i: int, status: TodoStatus)
    requires
        unique_ids(todos),
        0 <= i < todos.len(),
    ensures
        with_status(todos.remove(i), status) == without_id(with_status(todos, status), todos[i].id),
{
    broadcast use Seq::filter_distributes_over_add;

    let id = todos[i].id;
    let a = todos.subrange(0, i);
    let b = todos.subrange(i + 1, todos.len() as int);
    let x = seq![todos[i]];
    assert(todos =~= a + x + b);
    assert(todos.remove(i) =~= a + b);
    lemma_sides_lack_id(todos, i);
    lemma_view_without_id(a, id, status);
    lemma_view_without_id(b, id, status);
    let wx = with_status(x, status);
    assert(without_id(wx, id) =~= Seq::<Todo>::empty()) by {
        lemma_filter_single(todos[i], |t: Todo| t.status == status);
        if todos[i].status == status {
            assert(wx =~= x);
            lemma_without_single(todos[i], id);
        } else {
            assert(wx =~= Seq::<Todo>::empty());
        }
    }
    assert(with_status(a + x + b, status) == with_status(a, status) + wx + with_status(b, status));
    assert(without_id(with_status(a, status) + wx + with_status(b, status), id) == without_id(
        with_status(a, status),
        id,
    ) + without_id(wx, id) + without_id(with_status(b, status), id));
    assert(with_status(a + b, status) =~= with_status(a, status) + Seq::<Todo>::empty()
        + with_status(b, status));
}

/// In a list with distinct ids, setting the status of the `i`-th todo to
/// `status` puts it in the view of `status`, takes it out of every other
/// view, and leaves all views the same apart from that todo.
pub proof fn lemma_set_status_views(todos: Seq<Todo>, i: int, status: TodoStatus, other: TodoStatus)
    requires
        unique_ids(todos),
        0 <= i < todos.len(),
    ensures
        with_status(status_updated(todos, i, status), status).contains(
            status_updated(todos, i, status)[i],
        ),
        other != status ==> !contains_id(
            with_status(status_updated(todos, i, status), other),
            todos[i].id,
        ),
        without_id(with_status(status_updated(todos, i, status), other), todos[i].id) == without_id(
            with_status(todos, other),
            todos[i].id,
        ),
{
    broadcast use Seq::filter_distributes_over_add;

    let u = status_updated(todos, i, status);
    lemma_updated_todo_in_view(todos, i, status);
    let id = todos[i].id;
    let a = todos.subrange(0, i);
    let b = todos.subrange(i + 1, todos.len() as int);
    let x = seq![todos[i]];
    let y = seq![u[i]];
    assert(todos =~= a + x + b);
    assert(u =~= a + y + b);
    lemma_sides_lack_id(todos, i);
    lemma_view_without_id(a, id, other);
    lemma_view_without_id(b, id, other);
    lemma_absent_id_in_no_view(a, id, other);
    lemma_absent_id_in_no_view(b, id, other);
    let wx = with_status(x, other);
    let wy = with_status(y, other);
    assert(without_id(wx, id) =~= Seq::<Todo>::empty() && without_id(wy, id)
        =~= Seq::<Todo>::empty()) by {
        lemma_filter_single(todos[i], |t: Todo| t.status == other);
        lemma_filter_single(u[i], |t: Todo| t.status == other);
        if todos[i].status == other {
            assert(wx =~= x);
            lemma_without_single(todos[i], id);
        } else {
            assert(wx =~= Seq::<Todo>::empty());
        }
        if status == other {
            assert(wy =~= y);
            lemma_without_single(u[i], id);
        } else {
            assert(wy =~= Seq::<Todo>::empty());
        }
    }
    assert(with_status(a + x + b, other) == with_status(a, other) + wx + with_status(b, other));
    assert(with_status(a + y + b, other) == with_status(a, other) + wy + with_status(b, other));
    assert(without_id(with_status(a, other) + wx + with_status(b, other), id) == without_id(
        with_status(a, other),
        id,
    ) + without_id(wx, id) + without_id(with_status(b, other), id));
    assert(without_id(with_status(a, other) + wy + with_status(b, other), id) == without_id(
        with_status(a, other),
        id,
    ) + without_id(wy, id) + without_id(with_status(b, other), id));
    if other != status {
        lemma_filter_single(u[i], |t: Todo| t.status == other);
        assert(wy =~= Seq::<Todo>::empty());
        let v = with_status(u, other);
        assert(v =~= with_status(a, other) + with_status(b, other));
        if contains_id(v, id) {
            let k = choose|k: int| 0 <= k < v.len() && #[trigger] v[k].id == id;
            let la = with_status(a, other).len();
            if k < la {
                assert(v[k] == with_status(a, other)[k]);
            } else {
                assert(v[k] == with_status(b, other)[k - la]);
            }
        }
    }
}

/// The abstract content of a store: its title and its todos in display order.
pub struct TodoListView {
    pub title: Seq<char>,
    pub todos: Seq<Todo>,
    /// Every id the store has handed out, removed todos' ids included.
    pub issued: Seq<u128>,
}

/// A store's invariant: no two todos share an id, and every todo's id is
/// one that the store handed out.
pub open spec fn list_wf(v: TodoListView) -> bool {
    &&& unique_ids(v.todos)
    &&& forall|i: int| 0 <= i < v.todos.len() ==> v.issued.contains(#[trigger] v.todos[i].id)
}

/// The todo store: a titled, ordered collection of todos with distinct ids.
#[derive(Debug)]
pub struct TodoList {
    title: String,
    todos: Vec<Todo>,
    issued: Vec<u128>,
}

impl View for TodoList {
    type V = TodoListView;

    closed spec fn view(&self) -> TodoListView {
        TodoListView { title: self.title@, todos: self.todos@, issued: self.issued@ }
    }
}

impl Default for TodoList {
    /// An empty store titled "Default".
    fn default() -> (r: TodoList)
        ensures
            r.wf(),
            r@.title == "Default"@,
            r@.todos.len() == 0,
            r@.issued.len() == 0,
    {
        TodoList::new("Default")
    }
}

impl TodoList {
    /// The banner line that heads a store's listing.
    pub open spec fn banner_line(title: Seq<char>) -> Seq<char> {
        "*** "@ + title + " ***"@
    }

    /// The listing line of the todo at 1-based position `k`.
    pub open spec fn item_line(k: nat, title: Seq<char>) -> Seq<char> {
        decimal(k) + ". "@ + title
    }

    /// The store's invariant.
    pub open spec fn wf(&self) -> bool {
        list_wf(self@)
    }

    /// An empty store with the given title.
    pub fn new(title: &str) -> (r: TodoList)
        ensures
            r.wf(),
            r@.title == title@,
            r@.todos.len() == 0,
            r@.issued.len() == 0,
    {
        TodoList { title: String::from_str(title), todos: Vec::new(), issued: Vec::new() }
    }

    /// The store's title.
    pub fn title(&self) -> (r: &str)
        ensures
            r@ == self@.title,
    {
        self.title.as_str()
    }

    /// How many todos the store holds.
    pub fn len(&self) -> (r: usize)
        ensures
            r == self@.todos.len(),
    {
        self.todos.len()
    }

    /// The todo at position `i` in display order.
    pub fn get(&self, i: usize) -> (r: &Todo)
        requires
            i < self@.todos.len(),
        ensures
            *r == self@.todos[i as int],
    {
        &self.todos[i]
    }

    /// The position of the todo that carries `id`, if any.
    pub fn position(&self, id: u128) -> (r: Option<usize>)
        ensures
            r is None <==> !contains_id(self@.todos, id),
            r matches Some(i) ==> i < self@.todos.len() && self@.todos[i as int].id == id,
    {
        let n = self.todos.len();
        let mut i: usize = 0;
        while i < n
            invariant
                n == self@.todos.len(),
                i <= n,
                forall|j: int| 0 <= j < i ==> #[trigger] self@.todos[j].id != id,
            decreases n - i,
        {
            if self.todos[i].id == id {
                return Some(i);
            }
            i = i + 1;
        }
        None
    }

    /// Whether the store has ever handed out `id`.
    fn was_issued(&self, id: u128) -> (r: bool)
        ensures
            r == self@.issued.contains(id),
    {
        let n = self.issued.len();
        let mut i: usize = 0;
        while i < n
            invariant
                n == self@.issued.len(),
                i <= n,
                forall|j: int| 0 <= j < i ==> #[trigger] self@.issued[j] != id,
            decreases n - i,
        {
            if self.issued[i] == id {
                return true;
            }
            i = i + 1;
        }
        false
    }

    /// The least id that the store has never handed out.
    fn unused_id(&self) -> (r: u128)
        ensures
            !self@.issued.contains(r),
    {
        let n = self.issued.len();
        let mut c: u128 = 0;
        while self.was_issued(c)
            invariant
                n == self@.issued.len(),
                c <= n,
                forall|j: u128| j < c ==> #[trigger] self@.issued.contains(j),
            decreases self@.issued.len() - c,
        {
            proof {
                assert forall|j: u128| j < c + 1 implies #[trigger] self@.issued.contains(j) by {
                    if j < c {
                        assert(self@.issued.contains(j));
                    }
                }
                lemma_ids_below_bound(self@.issued, c + 1);
            }
            c = c + 1;
        }
        c
    }

    /// Appends a new todo with the given title and status and an id that the
    /// store has never handed out before; returns that id.
    pub fn add(&mut self, title: &str, status: TodoStatus) -> (r: u128)
        requires
            old(self).wf(),
        ensures
            final(self).wf(),
            final(self)@.title == old(self)@.title,
            !old(self)@.issued.contains(r),
            final(self)@.issued == old(self)@.issued.push(r),
            !contains_id(old(self)@.todos, r),
            final(self)@.todos.len() == old(self)@.todos.len() + 1,
            final(self)@.todos.drop_last() == old(self)@.todos,
            final(self)@.todos.last().id == r,
            final(self)@.todos.last().title@ == title@,
            final(self)@.todos.last().status == status,
    {
        let mut t = Todo::new(title, status);
        if self.was_issued(t.id) {
            t.id = self.unused_id();
        }
        let id = t.id;
        proof {
            if contains_id(old(self)@.todos, id) {
                let k = choose|k: int| 0 <= k < old(self)@.todos.len() && #[trigger] old(self)@.todos[k].id == id;
                assert(old(self)@.issued.contains(old(self)@.todos[k].id));
            }
        }
        self.todos.push(t);
        self.issued.push(id);
        proof {
            assert(self@.todos.drop_last() =~= old(self)@.todos);
            assert forall|i: int| 0 <= i < self@.todos.len() implies self@.issued.contains(
                #[trigger] self@.todos[i].id,
            ) by {
                if i < old(self)@.todos.len() {
                    assert(old(self)@.issued.contains(old(self)@.todos[i].id));
                    let k = choose|k: int| 0 <= k < old(self)@.issued.len() && old(self)@.issued[k] == old(self)@.todos[i].id;
                    assert(self@.issued[k] == self@.todos[i].id);
                } else {
                    assert(self@.issued[self@.issued.len() - 1] == id);
                }
            }
            assert forall|i: int, j: int|
                0 <= i < self@.todos.len() && 0 <= j < self@.todos.len() && i != j implies
                #[trigger] self@.todos[i].id != #[trigger] self@.todos[j].id by {
                if i == self@.todos.len() - 1 {
                    assert(old(self)@.todos[j].id != id);
                } else if j == self@.todos.len() - 1 {
                    assert(old(self)@.todos[i].id != id);
                }
            }
        }
        id
    }

    /// Removes the todo that carries `id`, keeping the order of the others;
    /// fails with `NotFound`, and changes nothing, when no todo carries it.
    pub fn remove(&mut self, id: u128) -> (r: Result<(), NotFound>)
        requires
            old(self).wf(),
        ensures
            final(self).wf(),
            final(self)@.title == old(self)@.title,
            final(self)@.issued == old(self)@.issued,
            r is Ok <==> contains_id(old(self)@.todos, id),
            r is Err ==> final(self)@ == old(self)@,
            r is Ok ==> exists|i: int|
                0 <= i < old(self)@.todos.len() && old(self)@.todos[i].id == id
                    && final(self)@.todos == old(self)@.todos.remove(i),
            r is Ok ==> final(self)@.todos.len() == old(self)@.todos.len() - 1,
            !contains_id(final(self)@.todos, id),
    {
        match self.position(id) {
            Some(pos) => {
                self.todos.remove(pos);
                proof {
                    let o = old(self)@.todos;
                    assert(self@.todos =~= o.remove(pos as int));
                    assert forall|i: int, j: int|
                        0 <= i < self@.todos.len() && 0 <= j < self@.todos.len() && i != j implies
                        #[trigger] self@.todos[i].id != #[trigger] self@.todos[j].id by {
                        let oi = if i < pos { i } else { i + 1 };
                        let oj = if j < pos { j } else { j + 1 };
                        assert(o[oi] == self@.todos[i]);
                        assert(o[oj] == self@.todos[j]);
                    }
                    assert forall|i: int| 0 <= i < self@.todos.len() implies
                        #[trigger] self@.todos[i].id != id by {
                        let oi = if i < pos { i } else { i + 1 };
                        assert(o[oi] == self@.todos[i]);
                    }
                }
                Ok(())
            },
            None => Err(NotFound),
        }
    }

    /// Sets the status of the todo that carries `id`; fails with `NotFound`,
    /// and changes nothing, when no todo carries it.
    pub fn set_status(&mut self, id: u128, status: TodoStatus) -> (r: Result<(), NotFound>)
        requires
            old(self).wf(),
        ensures
            final(self).wf(),
            final(self)@.title == old(self)@.title,
            final(self)@.issued == old(self)@.issued,
            r is Ok <==> contains_id(old(self)@.todos, id),
            r is Err ==> final(self)@ == old(self)@,
            r is Ok ==> exists|i: int|
                0 <= i < old(self)@.todos.len() && old(self)@.todos[i].id == id
                    && final(self)@.todos == status_updated(old(self)@.todos, i, status),
    {
        match self.position(id) {
            Some(pos) => {
                let t = self.todos.remove(pos);
                let Todo { id: tid, title, status: _ } = t;
                self.todos.insert(pos, Todo { id: tid, title, status });
                proof {
                    let o = old(self)@.todos;
                    assert(self@.todos =~= status_updated(o, pos as int, status));
                    assert forall|i: int, j: int|
                        0 <= i < self@.todos.len() && 0 <= j < self@.todos.len() && i != j implies
                        #[trigger] self@.todos[i].id != #[trigger] self@.todos[j].id by {
                        assert(o[i].id == self@.todos[i].id);
                        assert(o[j].id == self@.todos[j].id);
                    }
                }
                Ok(())
            },
            None => Err(NotFound),
        }
    }

    /// The store as text: a banner with the title, one line per todo with its
    /// 1-based position and title, and a blank line.
    pub fn render_lines(&self) -> (r: Vec<String>)
        ensures
            r@.len() == self@.todos.len() + 2,
            r@[0]@ == Self::banner_line(self@.title),
            forall|i: int|
                0 <= i < self@.todos.len() ==> (#[trigger] r@[i + 1])@ == Self::item_line(
                    (i + 1) as nat,
                    self@.todos[i].title@,
                ),
            r@[self@.todos.len() + 1int]@ == Seq::<char>::empty(),
    {
        let mut r: Vec<String> = Vec::new();
        r.push(String::from_str("*** ").concat(self.title.as_str()).concat(" ***"));
        let n = self.todos.len();
        let mut i: usize = 0;
        while i < n
            invariant
                n == self@.todos.len(),
                i <= n,
                r@.len() == i + 1,
                r@[0]@ == Self::banner_line(self@.title),
                forall|j: int|
                    0 <= j < i ==> (#[trigger] r@[j + 1])@ == Self::item_line(
                        (j + 1) as nat,
                        self@.todos[j].title@,
                    ),
            decreases n - i,
        {
            let line = decimal_string(i + 1).concat(". ").concat(self.todos[i].title.as_str());
            r.push(line);
            i = i + 1;
        }
        r.push(String::new());
        r
    }

    /// The todos whose status is `status`, in store order.
    pub fn get_by_status(&self, status: TodoStatus) -> (r: Vec<&Todo>)
        ensures
            r@.map_values(|t: &Todo| *t) == with_status(self@.todos, status),
    {
        let mut r: Vec<&Todo> = Vec::new();
        let n = self.todos.len();
        let mut i: usize = 0;
        while i < n
            invariant
                n == self@.todos.len(),
                i <= n,
                r@.map_values(|t: &Todo| *t) == with_status(self@.todos.subrange(0, i as int), status),
            decreases n - i,
        {
            let t = &self.todos[i];
            proof {
                let s = self@.todos.subrange(0, i as int + 1);
                assert(s.drop_last() =~= self@.todos.subrange(0, i as int));
                assert(s.last() == *t);
                reveal(Seq::filter);
            }
            if t.status == status {
                r.push(t);
                assert(r@.map_values(|t: &Todo| *t) =~= with_status(self@.todos.subrange(0, i as int), status).push(*t));
            }
            i = i + 1;
        }
        assert(self@.todos.subrange(0, n as int) =~= self@.todos);
        r
    }
}

} // verus!
