//! Parameter sets: named JSON values that a test is run with, and the
//! collections of them that are made for parameterized tests.

use vstd::prelude::*;
use vstd::string::StringExecFns;
use crate::error::{Error, ErrorKind, ErrorView};
use crate::json::{clone_values, json_clone, json_render, json_rendering};
use crate::ordered::{
    set_contains, set_get, set_index_of, set_insert_full, set_items, set_new,
};
use crate::text::{opt_text, texts};

verus! {

/// The mathematical content of a [`ParameterSet`]: the keys in the order in
/// which they were added, and the value of each.
pub ghost struct ParameterSetView {
    pub keys: Seq<Seq<char>>,
    pub values: Seq<serde_json::Value>,
    pub name: Option<Seq<char>>,
    pub description: Option<Seq<char>>,
}

impl ParameterSetView {
    /// Every key has its value, and no key is there twice.
    pub open spec fn wf(self) -> bool {
        self.keys.len() == self.values.len() && self.keys.no_duplicates()
    }

    /// This set with `value` under `key`: in the place of the value that
    /// was under the key, or at the end.
    pub open spec fn with_param(self, key: Seq<char>, value: serde_json::Value) -> Self {
        if self.keys.contains(key) {
            ParameterSetView { values: self.values.update(self.keys.index_of(key), value), ..self }
        } else {
            ParameterSetView { keys: self.keys.push(key), values: self.values.push(value), ..self }
        }
    }

    /// The pairs of the first `n` keys with their values, each written as
    /// `key=value`, with a comma and a blank between two.
    pub open spec fn pairs_text(self, n: int) -> Seq<char>
        decreases n,
    {
        if n <= 0 || n > self.keys.len() || n > self.values.len() {
            Seq::empty()
        } else if n == 1 {
            self.keys[0] + "="@ + json_rendering(self.values[0])
        } else {
            self.pairs_text(n - 1) + ", "@ + self.keys[n - 1] + "="@ + json_rendering(
                self.values[n - 1],
            )
        }
    }

    /// The name under which the set is shown: its own name, or its pairs
    /// in square brackets.
    pub open spec fn display_name(self) -> Seq<char> {
        match self.name {
            Some(n) => n,
            None => "["@ + self.pairs_text(self.keys.len() as int) + "]"@,
        }
    }
}

/// Named values for one run of a parameterized test.
pub struct ParameterSet {
    /// The keys, in the order in which they were added.
    pub keys: indexmap::IndexSet<String>,
    /// The values; the one at index `i` belongs to the key at index `i`.
    pub values: Vec<serde_json::Value>,
    pub name: Option<String>,
    pub description: Option<String>,
}

impl View for ParameterSet {
    type V = ParameterSetView;

    open spec fn view(&self) -> ParameterSetView {
        ParameterSetView {
            keys: set_items(self.keys),
            values: self.values@,
            name: opt_text(self.name),
            description: opt_text(self.description),
        }
    }
}

/// The message of the error for a parameter that a set does not hold.
pub open spec fn missing_parameter(key: Seq<char>) -> Seq<char> {
    "Parameter '"@ + key + "' not found"@
}

impl ParameterSet {
    /// Every key has its value, and no key is there twice.
    pub open spec fn wf(&self) -> bool {
        self@.wf()
    }

    /// A set without values and without a name.
    pub fn new() -> (r: Self)
        ensures
            r.wf(),
            r@ == (ParameterSetView {
                keys: Seq::empty(),
                values: Seq::empty(),
                name: None,
                description: None,
            }),
    {
        ParameterSet { keys: set_new(), values: Vec::new(), name: None, description: None }
    }

    /// This set with `value` under `key`.
    pub fn with_param(self, key: &str, value: serde_json::Value) -> (r: Self)
        requires
            self.wf(),
        ensures
            r.wf(),
            r@ == self@.with_param(key@, value),
    {
        let mut r = self;
        let (index, fresh) = set_insert_full(&mut r.keys, key.to_owned());
        if fresh {
            r.values.push(value);
        } else {
            proof {
                assert(self@.keys[index as int] == key@);
                assert(self@.keys.contains(key@));
                let chosen = self@.keys.index_of(key@);
                assert(chosen == index);
            }
            r.values.set(index, value);
        }
        r
    }

    /// This set under the name `name`.
    pub fn with_name(self, name: &str) -> (r: Self)
        ensures
            r@ == (ParameterSetView { name: Some(name@), ..self@ }),
    {
        let mut r = self;
        r.name = Some(name.to_owned());
        r
    }

    /// This set with the description `description`.
    pub fn with_description(self, description: &str) -> (r: Self)
        ensures
            r@ == (ParameterSetView { description: Some(description@), ..self@ }),
    {
        let mut r = self;
        r.description = Some(description.to_owned());
        r
    }

    /// The value under `key`; a test setup error where the set holds none.
    pub fn get(&self, key: &str) -> (r: Result<&serde_json::Value, Error>)
        requires
            self.wf(),
        ensures
            match r {
                Ok(v) => self@.keys.contains(key@) && *v == self@.values[self@.keys.index_of(
                    key@,
                )],
                Err(e) => !self@.keys.contains(key@) && e@ == (ErrorView {
                    kind: ErrorKind::TestSetup,
                    stage: Seq::empty(),
                    message: missing_parameter(key@),
                }),
            },
    {
        match set_index_of(&self.keys, key) {
            Some(i) => {
                proof {
                    assert(self@.keys.contains(key@));
                    let chosen = self@.keys.index_of(key@);
                    assert(chosen == i);
                }
                Ok(&self.values[i])
            },
            None => {
                let mut message = String::from_str("Parameter '");
                message.append(key);
                message.append("' not found");
                Err(Error::test_setup(message.as_str()))
            },
        }
    }

    /// Whether the set holds a value under `key`.
    pub fn contains(&self, key: &str) -> (r: bool)
        ensures
            r == self@.keys.contains(key@),
    {
        set_contains(&self.keys, key)
    }

    /// The name under which the set is shown.
    pub fn display_name(&self) -> (r: String)
        requires
            self.wf(),
        ensures
            r@ == self@.display_name(),
    {
        match &self.name {
            Some(name) => name.clone(),
            None => {
                let mut out = String::from_str("[");
                let mut i: usize = 0;
                assert(out@ =~= "["@ + self@.pairs_text(0));
                while i < self.values.len()
                    invariant
                        i <= self.values.len(),
                        self.wf(),
                        out@ == "["@ + self@.pairs_text(i as int),
                    decreases self.values.len() - i,
                {
                    let key = match set_get(&self.keys, i) {
                        Some(key) => key,
                        None => String::new(),
                    };
                    if i > 0 {
                        out.append(", ");
                    }
                    out.append(key.as_str());
                    out.append("=");
                    let shown = json_render(&self.values[i]);
                    out.append(shown.as_str());
                    i += 1;
                    assert(out@ =~= "["@ + self@.pairs_text(i as int));
                }
                out.append("]");
                out
            },
        }
    }
}

/// The rows `rows`, each with every value of `values` put at its end in
/// turn: the rows in their order, and for each row the values in theirs.
pub open spec fn extended(rows: Seq<Seq<serde_json::Value>>, values: Seq<serde_json::Value>) -> Seq<
    Seq<serde_json::Value>,
>
    decreases rows.len(),
{
    if rows.len() == 0 {
        Seq::empty()
    } else {
        extended(rows.drop_last(), values) + with_each(rows.last(), values, values.len() as int)
    }
}

/// The row `row` with each of the first `n` values of `values` put at its
/// end in turn.
pub open spec fn with_each(row: Seq<serde_json::Value>, values: Seq<serde_json::Value>, n: int) ->
    Seq<Seq<serde_json::Value>>
    decreases n,
{
    if n <= 0 || n > values.len() {
        Seq::empty()
    } else {
        with_each(row, values, n - 1).push(row.push(values[n - 1]))
    }
}

/// Every choice of one value from each of the first `n` lists of
/// `choices`: the choices from the first list change slowest.
pub open spec fn product(choices: Seq<Seq<serde_json::Value>>, n: int) -> Seq<
    Seq<serde_json::Value>,
>
    decreases n,
{
    if n <= 0 || n > choices.len() {
        seq![Seq::empty()]
    } else {
        extended(product(choices, n - 1), choices[n - 1])
    }
}

/// The rows of the sets of a cartesian product: none where there are no
/// keys, else every choice of one value for each key.
pub open spec fn product_rows(choices: Seq<Seq<serde_json::Value>>) -> Seq<
    Seq<serde_json::Value>,
> {
    if choices.len() == 0 {
        Seq::empty()
    } else {
        product(choices, choices.len() as int)
    }
}

/// The values of each row of `rows`.
pub open spec fn row_views(rows: Seq<Vec<serde_json::Value>>) -> Seq<Seq<serde_json::Value>> {
    rows.map_values(|r: Vec<serde_json::Value>| r@)
}

/// Every row of `rows` with every value of `values` put at its end in turn.
pub fn extend_rows(rows: &Vec<Vec<serde_json::Value>>, values: &Vec<serde_json::Value>) -> (r: Vec<
    Vec<serde_json::Value>,
>)
    ensures
        row_views(r@) == extended(row_views(rows@), values@),
{
    let mut out: Vec<Vec<serde_json::Value>> = Vec::new();
    let mut i: usize = 0;
    let ghost all = row_views(rows@);
    assert(all.take(0) =~= Seq::empty());
    assert(row_views(out@) =~= extended(all.take(0), values@));
    while i < rows.len()
        invariant
            i <= rows.len(),
            all == row_views(rows@),
            row_views(out@) == extended(all.take(i as int), values@),
        decreases rows.len() - i,
    {
        let ghost before = row_views(out@);
        proof {
            assert(all.take(i + 1).drop_last() =~= all.take(i as int));
            assert(all.take(i + 1).last() == rows@[i as int]@);
        }
        let mut k: usize = 0;
        assert(row_views(out@) =~= before + with_each(rows@[i as int]@, values@, 0));
        while k < values.len()
            invariant
                k <= values.len(),
                i < rows.len(),
                row_views(out@) == before + with_each(rows@[i as int]@, values@, k as int),
            decreases values.len() - k,
        {
            let ghost had = row_views(out@);
            let mut row = clone_values(&rows[i]);
            row.push(json_clone(&values[k]));
            out.push(row);
            assert(row_views(out@) =~= had.push(rows@[i as int]@.push(values@[k as int])));
            k += 1;
            assert(row_views(out@) =~= before + with_each(rows@[i as int]@, values@, k as int));
        }
        i += 1;
    }
    assert(all.take(i as int) =~= all);
    out
}

/// The rows of the cartesian product of `choices`.
pub fn cartesian_rows(choices: &Vec<Vec<serde_json::Value>>) -> (r: Vec<Vec<serde_json::Value>>)
    ensures
        row_views(r@) == product_rows(row_views(choices@)),
{
    let mut rows: Vec<Vec<serde_json::Value>> = Vec::new();
    if choices.len() == 0 {
        assert(row_views(rows@) =~= Seq::empty());
        return rows;
    }
    rows.push(Vec::new());
    assert(row_views(rows@) =~= seq![Seq::empty()]);
    let mut i: usize = 0;
    while i < choices.len()
        invariant
            i <= choices.len(),
            row_views(rows@) == product(row_views(choices@), i as int),
        decreases choices.len() - i,
    {
        assert(row_views(choices@)[i as int] == choices@[i as int]@);
        rows = extend_rows(&rows, &choices[i]);
        i += 1;
    }
    rows
}

/// Parameter sets for the runs of one parameterized test.
pub struct ParameterCollection {
    pub sets: Vec<ParameterSet>,
    pub name: Option<String>,
    pub description: Option<String>,
}

impl ParameterCollection {
    /// A collection without sets.
    pub fn new() -> (r: Self)
        ensures
            r.sets@.len() == 0,
            r.name is None,
            r.description is None,
    {
        ParameterCollection { sets: Vec::new(), name: None, description: None }
    }

    /// This collection with one more set.
    pub fn add_set(self, set: ParameterSet) -> (r: Self)
        ensures
            r.sets@ == self.sets@.push(set),
            r.name == self.name,
            r.description == self.description,
    {
        let mut r = self;
        r.sets.push(set);
        r
    }

    /// This collection under the name `name`.
    pub fn with_name(self, name: &str) -> (r: Self)
        ensures
            r == (ParameterCollection { name: r.name, ..self }),
            r.sets == self.sets,
            r.name is Some,
            r.name->0@ == name@,
    {
        let mut r = self;
        r.name = Some(name.to_owned());
        r
    }

    /// This collection with the description `description`.
    pub fn with_description(self, description: &str) -> (r: Self)
        ensures
            r == (ParameterCollection { description: r.description, ..self }),
            r.sets == self.sets,
            r.description is Some,
            r.description->0@ == description@,
    {
        let mut r = self;
        r.description = Some(description.to_owned());
        r
    }

    /// The collection of every choice of one value for each key. `keys`
    /// holds the keys, without repetition, and `choices` the values to
    /// choose from for each of them. The sets come in the order in which
    /// the choices for the first key change slowest; there is none where
    /// there are no keys, or where a key has no value to choose from.
    pub fn cartesian_product(keys: &Vec<String>, choices: &Vec<Vec<serde_json::Value>>) -> (r: Self)
        requires
            keys@.len() == choices@.len(),
            texts(keys@).no_duplicates(),
        ensures
            r.name is None,
            r.description is None,
            r.sets@.len() == product_rows(row_views(choices@)).len(),
            forall|k: int|
                0 <= k < r.sets@.len() ==> (#[trigger] r.sets@[k])@ == (ParameterSetView {
                    keys: texts(keys@),
                    values: product_rows(row_views(choices@))[k],
                    name: None,
                    description: None,
                }),
    {
        let rows = cartesian_rows(choices);
        let mut sets: Vec<ParameterSet> = Vec::new();
        let mut i: usize = 0;
        proof {
            lemma_product_rows_full(row_views(choices@));
        }
        while i < rows.len()
            invariant
                i <= rows.len(),
                keys@.len() == choices@.len(),
                texts(keys@).no_duplicates(),
                row_views(rows@) == product_rows(row_views(choices@)),
                forall|k: int|
                    0 <= k < rows@.len() ==> (#[trigger] row_views(rows@)[k]).len()
                        == choices@.len(),
                sets@.len() == i,
                forall|k: int|
                    0 <= k < i ==> (#[trigger] sets@[k])@ == (ParameterSetView {
                        keys: texts(keys@),
                        values: row_views(rows@)[k],
                        name: None,
                        description: None,
                    }),
            decreases rows.len() - i,
        {
            let row = &rows[i];
            assert(row_views(rows@)[i as int] == row@);
            let mut set = ParameterSet::new();
            let mut k: usize = 0;
            assert(texts(keys@).take(0) =~= Seq::empty());
            assert(row@.take(0) =~= Seq::empty());
            while k < keys.len()
                invariant
                    k <= keys.len(),
                    row@.len() == keys@.len(),
                    texts(keys@).no_duplicates(),
                    set.wf(),
                    set@ == (ParameterSetView {
                        keys: texts(keys@).take(k as int),
                        values: row@.take(k as int),
                        name: None,
                        description: None,
                    }),
                decreases keys.len() - k,
            {
                proof {
                    let key = texts(keys@)[k as int];
                    assert(key == keys@[k as int]@);
                    if texts(keys@).take(k as int).contains(key) {
                        let at = choose|at: int|
                            0 <= at < k && texts(keys@).take(k as int)[at] == key;
                        assert(texts(keys@)[at] == key);
                    }
                }
                set = set.with_param(keys[k].as_str(), json_clone(&row[k]));
                k += 1;
                assert(set@.keys =~= texts(keys@).take(k as int));
                assert(set@.values =~= row@.take(k as int));
            }
            assert(texts(keys@).take(k as int) =~= texts(keys@));
            assert(row@.take(k as int) =~= row@);
            sets.push(set);
            i += 1;
        }
        ParameterCollection { sets, name: None, description: None }
    }

    /// The number of sets.
    pub fn len(&self) -> (r: usize)
        ensures
            r == self.sets@.len(),
    {
        self.sets.len()
    }

    /// Whether there is no set.
    pub fn is_empty(&self) -> (r: bool)
        ensures
            r == (self.sets@.len() == 0),
    {
        self.sets.len() == 0
    }
}

/// Every row of a product holds one value for each list.
pub proof fn lemma_product_full(choices: Seq<Seq<serde_json::Value>>, n: int)
    requires
        0 <= n <= choices.len(),
    ensures
        forall|k: int|
            0 <= k < product(choices, n).len() ==> (#[trigger] product(choices, n)[k]).len() == n,
    decreases n,
{
    if n > 0 {
        lemma_product_full(choices, n - 1);
        lemma_extended_full(product(choices, n - 1), choices[n - 1], n - 1);
    }
}

/// Every row of extended rows is one longer than the rows were.
pub proof fn lemma_extended_full(
    rows: Seq<Seq<serde_json::Value>>,
    values: Seq<serde_json::Value>,
    width: int,
)
    requires
        forall|k: int| 0 <= k < rows.len() ==> (#[trigger] rows[k]).len() == width,
    ensures
        forall|k: int|
            0 <= k < extended(rows, values).len() ==> (#[trigger] extended(rows, values)[k]).len()
                == width + 1,
    decreases rows.len(),
{
    if rows.len() > 0 {
        assert forall|k: int| 0 <= k < rows.drop_last().len() implies (
        #[trigger] rows.drop_last()[k]).len() == width by {
            assert(rows.drop_last()[k] == rows[k]);
        }
        lemma_extended_full(rows.drop_last(), values, width);
        lemma_with_each_full(rows.last(), values, values.len() as int);
        assert(rows.last() == rows[rows.len() - 1]);
        let head = extended(rows.drop_last(), values);
        let tail = with_each(rows.last(), values, values.len() as int);
        let all = extended(rows, values);
        assert(all == head + tail);
        assert forall|k: int| 0 <= k < all.len() implies (#[trigger] all[k]).len() == width
            + 1 by {
            if k < head.len() {
                assert(all[k] == head[k]);
            } else {
                assert(all[k] == tail[k - head.len()]);
            }
        }
    }
}

/// Every row made of a row and one value is one longer than the row.
pub proof fn lemma_with_each_full(row: Seq<serde_json::Value>, values: Seq<serde_json::Value>, n: int)
    ensures
        forall|k: int|
            0 <= k < with_each(row, values, n).len() ==> (#[trigger] with_each(
                row,
                values,
                n,
            )[k]).len() == row.len() + 1,
    decreases n,
{
    if n > 0 && n <= values.len() {
        lemma_with_each_full(row, values, n - 1);
        let before = with_each(row, values, n - 1);
        let all = with_each(row, values, n);
        assert forall|k: int| 0 <= k < all.len() implies (#[trigger] all[k]).len() == row.len()
            + 1 by {
            if k < before.len() {
                assert(all[k] == before[k]);
            } else {
                assert(all[k] == row.push(values[n - 1]));
            }
        }
    }
}

/// Every row of the rows of a product holds one value for each list.
pub proof fn lemma_product_rows_full(choices: Seq<Seq<serde_json::Value>>)
    ensures
        forall|k: int|
            0 <= k < product_rows(choices).len() ==> (#[trigger] product_rows(choices)[k]).len()
                == choices.len(),
{
    if choices.len() > 0 {
        lemma_product_full(choices, choices.len() as int);
    }
}

/// Gathers keys with the values to choose from, for a cartesian product.
pub struct ParameterBuilder {
    /// The keys, in the order in which they were added.
    pub keys: Vec<String>,
    /// The values to choose from for each key.
    pub choices: Vec<Vec<serde_json::Value>>,
}

impl ParameterBuilder {
    /// Every key has its values, and no key is there twice.
    pub open spec fn wf(&self) -> bool {
        self.keys@.len() == self.choices@.len() && texts(self.keys@).no_duplicates()
    }

    /// A builder without keys.
    pub fn new() -> (r: Self)
        ensures
            r.wf(),
            r.keys@.len() == 0,
    {
        let r = ParameterBuilder { keys: Vec::new(), choices: Vec::new() };
        assert(texts(r.keys@) =~= Seq::empty());
        r
    }

    /// This builder with `values` to choose from for `key`: in the place of
    /// the values that the key had, or at the end.
    pub fn add_param(self, key: &str, values: Vec<serde_json::Value>) -> (r: Self)
        requires
            self.wf(),
        ensures
            r.wf(),
            texts(self.keys@).contains(key@) ==> texts(r.keys@) == texts(self.keys@)
                && r.choices@ == self.choices@.update(texts(self.keys@).index_of(key@), values),
            !texts(self.keys@).contains(key@) ==> texts(r.keys@) == texts(self.keys@).push(key@)
                && r.choices@ == self.choices@.push(values),
    {
        let mut r = self;
        let mut i: usize = 0;
        while i < r.keys.len()
            invariant
                i <= r.keys.len(),
                r == self,
                r.wf(),
                forall|k: int| 0 <= k < i ==> texts(r.keys@)[k] != key@,
            decreases r.keys.len() - i,
        {
            if crate::text::str_eq(r.keys[i].as_str(), key) {
                proof {
                    assert(texts(self.keys@)[i as int] == key@);
                    assert(texts(self.keys@).contains(key@));
                    let chosen = texts(self.keys@).index_of(key@);
                    assert(chosen == i);
                }
                r.choices.set(i, values);
                return r;
            }
            i += 1;
        }
        r.keys.push(key.to_owned());
        r.choices.push(values);
        assert(texts(r.keys@) =~= texts(self.keys@).push(key@));
        r
    }

    /// The collection of every choice of one value for each key; see
    /// [`ParameterCollection::cartesian_product`].
    pub fn build(self) -> (r: ParameterCollection)
        requires
            self.wf(),
        ensures
            r.name is None,
            r.description is None,
            r.sets@.len() == product_rows(row_views(self.choices@)).len(),
            forall|k: int|
                0 <= k < r.sets@.len() ==> (#[trigger] r.sets@[k])@ == (ParameterSetView {
                    keys: texts(self.keys@),
                    values: product_rows(row_views(self.choices@))[k],
                    name: None,
                    description: None,
                }),
    {
        ParameterCollection::cartesian_product(&self.keys, &self.choices)
    }
}

} // verus!
