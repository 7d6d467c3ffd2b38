//! The embedding models of a database and those that can be loaded.

use vstd::prelude::*;
use vstd::string::*;
use crate::text::{decimal, push_decimal, same};
use crate::units::EmbeddingDim;

verus! {

/// A model that the database knows.
#[derive(Debug, Clone)]
pub struct RegisteredModel {
    pub name: String,
    pub dim: EmbeddingDim,
    pub active: bool,
}

/// A model that can be loaded.
#[derive(Debug, Clone)]
pub struct SupportedModel {
    pub name: String,
    pub dim: EmbeddingDim,
}

/// Why a model cannot be activated.
#[derive(Debug, Clone, Copy, PartialEq, Eq, Structural)]
pub enum ModelError {
    /// Neither registered nor loadable.
    Unknown,
    /// The database and the model itself disagree about the dimension.
    DimMismatch { db: EmbeddingDim, supported: EmbeddingDim },
}

/// What has to be done to activate a model.
#[derive(Debug, Clone, Copy, PartialEq, Eq, Structural)]
pub enum Activation {
    /// It is registered: just make it the active one.
    Activate,
    /// Register it with this dimension first.
    RegisterAndActivate(EmbeddingDim),
}

/// Whether a registered model has a name.
pub open spec fn is_registered(list: Seq<RegisteredModel>, name: Seq<char>) -> bool {
    exists|i: int| 0 <= i < list.len() && (#[trigger] list[i]).name@ == name
}

/// The dimension of the first registered model with a name.
pub open spec fn registered_dim(list: Seq<RegisteredModel>, name: Seq<char>) -> Option<
    EmbeddingDim,
>
    decreases list.len(),
{
    if list.len() == 0 {
        None
    } else if list[0].name@ == name {
        Some(list[0].dim)
    } else {
        registered_dim(list.skip(1), name)
    }
}

/// The dimension of the first supported model with a name.
pub open spec fn supported_dim(list: Seq<SupportedModel>, name: Seq<char>) -> Option<EmbeddingDim>
    decreases list.len(),
{
    if list.len() == 0 {
        None
    } else if list[0].name@ == name {
        Some(list[0].dim)
    } else {
        supported_dim(list.skip(1), name)
    }
}

fn find_registered(list: &Vec<RegisteredModel>, name: &str) -> (r: Option<EmbeddingDim>)
    ensures
        r == registered_dim(list@, name@),
        r is Some <==> is_registered(list@, name@),
{
    let mut i: usize = 0;
    assert(list@.skip(0) == list@);
    while i < list.len()
        invariant
            i <= list@.len(),
            registered_dim(list@, name@) == registered_dim(list@.skip(i as int), name@),
            forall|k: int| 0 <= k < i ==> (#[trigger] list@[k]).name@ != name@,
        decreases list@.len() - i,
    {
        assert(list@.skip(i as int)[0] == list@[i as int]);
        if same(list[i].name.as_str(), name) {
            return Some(list[i].dim);
        }
        assert(list@.skip(i as int).skip(1) == list@.skip(i + 1));
        i = i + 1;
    }
    None
}

fn find_supported(list: &Vec<SupportedModel>, name: &str) -> (r: Option<EmbeddingDim>)
    ensures
        r == supported_dim(list@, name@),
{
    let mut i: usize = 0;
    assert(list@.skip(0) == list@);
    while i < list.len()
        invariant
            i <= list@.len(),
            supported_dim(list@, name@) == supported_dim(list@.skip(i as int), name@),
        decreases list@.len() - i,
    {
        assert(list@.skip(i as int)[0] == list@[i as int]);
        if same(list[i].name.as_str(), name) {
            return Some(list[i].dim);
        }
        assert(list@.skip(i as int).skip(1) == list@.skip(i + 1));
        i = i + 1;
    }
    None
}

/// What it takes to make `name` the active model.
pub open spec fn activation(
    db: Option<EmbeddingDim>,
    supported: Option<EmbeddingDim>,
) -> Result<Activation, ModelError> {
    match (db, supported) {
        (Some(d), Some(s)) => if d == s {
            Ok(Activation::Activate)
        } else {
            Err(ModelError::DimMismatch { db: d, supported: s })
        },
        (Some(_), None) => Ok(Activation::Activate),
        (None, Some(s)) => Ok(Activation::RegisterAndActivate(s)),
        (None, None) => Err(ModelError::Unknown),
    }
}

/// Resolve `name` to the active model, auto-registering it if it can be
/// loaded but the DB has not seen it yet, and validating that an
/// already-registered model's dimension matches the model's own.
pub fn ensure_and_activate_model(
    registered: &Vec<RegisteredModel>,
    supported: &Vec<SupportedModel>,
    name: &str,
) -> (r: Result<Activation, ModelError>)
    ensures
        r == activation(registered_dim(registered@, name@), supported_dim(supported@, name@)),
{
    let own: Option<EmbeddingDim> = find_supported(supported, name);
    match (find_registered(registered, name), own) {
        (Some(d), Some(s)) => {
            if d.get() == s.get() {
                Ok(Activation::Activate)
            } else {
                Err(ModelError::DimMismatch { db: d, supported: s })
            }
        },
        (Some(_), None) => Ok(Activation::Activate),
        (None, Some(s)) => Ok(Activation::RegisterAndActivate(s)),
        (None, None) => Err(ModelError::Unknown),
    }
}

/// The model to seed a database with when it is opened: the configured
/// default, and only where the database did **not** already exist, so a
/// per-database `models use` choice is never overridden.
pub fn open_db_seeding_default(existed: bool, default_model: Option<&str>) -> (r: Option<String>)
    ensures
        existed ==> r is None,
        !existed ==> (default_model is Some <==> r is Some),
        r matches Some(m) ==> (default_model matches Some(d) && m@ == d@),
{
    match default_model {
        Some(name) => {
            if existed {
                None
            } else {
                Some(name.to_owned())
            }
        },
        None => None,
    }
}

/// A row for `models list`: registered models plus loadable models that are
/// not yet registered (marked not-indexed).
#[derive(Debug, Clone)]
pub struct ModelRow {
    pub name: String,
    pub dim: EmbeddingDim,
    pub active: bool,
    pub indexed: bool,
}

/// A row as plain data.
pub struct ModelRowModel {
    pub name: Seq<char>,
    pub dim: EmbeddingDim,
    pub active: bool,
    pub indexed: bool,
}

impl View for ModelRow {
    type V = ModelRowModel;

    open spec fn view(&self) -> ModelRowModel {
        ModelRowModel {
            name: self.name@,
            dim: self.dim,
            active: self.active,
            indexed: self.indexed,
        }
    }
}

/// Rows as plain data.
pub open spec fn model_rows(rows: Seq<ModelRow>) -> Seq<ModelRowModel> {
    rows.map_values(|r: ModelRow| r@)
}

/// The rows of the registered models.
pub open spec fn registered_rows(list: Seq<RegisteredModel>) -> Seq<ModelRowModel> {
    list.map_values(
        |m: RegisteredModel|
            ModelRowModel { name: m.name@, dim: m.dim, active: m.active, indexed: true },
    )
}

/// The rows of the supported models that are not registered.
pub open spec fn other_rows(list: Seq<SupportedModel>, registered: Seq<RegisteredModel>) -> Seq<
    ModelRowModel,
>
    decreases list.len(),
{
    if list.len() == 0 {
        Seq::empty()
    } else {
        let before = other_rows(list.drop_last(), registered);
        let m = list.last();
        if is_registered(registered, m.name@) {
            before
        } else {
            before.push(
                ModelRowModel { name: m.name@, dim: m.dim, active: false, indexed: false },
            )
        }
    }
}

/// Build the rows for `models list`: every registered (indexed) model, plus any
/// loadable model that isn't registered yet (marked not-indexed).
pub fn list_rows(registered: &Vec<RegisteredModel>, supported: &Vec<SupportedModel>) -> (r: Vec<
    ModelRow,
>)
    ensures
        model_rows(r@) == registered_rows(registered@) + other_rows(supported@, registered@),
{
    let mut rows: Vec<ModelRow> = Vec::new();
    let mut i: usize = 0;
    assert(model_rows(rows@) == registered_rows(registered@).take(0));
    while i < registered.len()
        invariant
            i <= registered@.len(),
            model_rows(rows@) == registered_rows(registered@).take(i as int),
        decreases registered@.len() - i,
    {
        let ghost before = rows@;
        rows.push(
            ModelRow {
                name: registered[i].name.clone(),
                dim: registered[i].dim,
                active: registered[i].active,
                indexed: true,
            },
        );
        proof {
            assert(model_rows(rows@) == model_rows(before).push(rows@.last()@));
            assert(registered_rows(registered@).take(i + 1) == registered_rows(registered@).take(
                i as int,
            ).push(rows@.last()@));
        }
        i = i + 1;
    }
    let ghost own = registered_rows(registered@);
    proof {
        assert(own.take(i as int) == own);
        assert(supported@.take(0) == Seq::<SupportedModel>::empty());
        assert(own + other_rows(supported@.take(0), registered@) == own);
    }
    let mut j: usize = 0;
    while j < supported.len()
        invariant
            j <= supported@.len(),
            model_rows(rows@) == own + other_rows(supported@.take(j as int), registered@),
        decreases supported@.len() - j,
    {
        proof {
            assert(supported@.take(j + 1).drop_last() == supported@.take(j as int));
            assert(supported@.take(j + 1).last() == supported@[j as int]);
        }
        if find_registered(registered, supported[j].name.as_str()).is_none() {
            let ghost before = rows@;
            rows.push(
                ModelRow {
                    name: supported[j].name.clone(),
                    dim: supported[j].dim,
                    active: false,
                    indexed: false,
                },
            );
            assert(model_rows(rows@) == model_rows(before).push(rows@.last()@));
        }
        j = j + 1;
    }
    assert(supported@.take(j as int) == supported@);
    rows
}

/// The line of `models list` for a row.
pub open spec fn row_line(r: ModelRowModel) -> Seq<char> {
    (if r.active {
        "* "@
    } else {
        "  "@
    }) + r.name + " (dim "@ + decimal(r.dim.0 as nat) + ")"@ + if r.indexed {
        ""@
    } else {
        " [available, not indexed]"@
    }
}

/// The line that `models list` prints for a row: the active model is marked,
/// and so are those that are available but not indexed.
pub fn model_line(row: &ModelRow) -> (r: String)
    ensures
        r@ == row_line(row@),
{
    let mut out: String = if row.active {
        "* ".to_owned()
    } else {
        "  ".to_owned()
    };
    out.append(row.name.as_str());
    out.append(" (dim ");
    push_decimal(&mut out, row.dim.get() as u64);
    out.append(")");
    if row.indexed {
        out.append("");
    } else {
        out.append(" [available, not indexed]");
    }
    out
}

/// Once a model is registered with its own dimension, activating it again
/// never registers it again and never fails.
pub proof fn registering_once_is_enough(dim: EmbeddingDim, supported: Option<EmbeddingDim>)
    requires
        activation(None, supported) == Ok::<Activation, ModelError>(
            Activation::RegisterAndActivate(dim),
        ),
    ensures
        activation(Some(dim), supported) == Ok::<Activation, ModelError>(Activation::Activate),
{
}

proof fn registered_dim_is(list: Seq<RegisteredModel>, name: Seq<char>)
    ensures
        registered_dim(list, name) is Some <==> is_registered(list, name),
        registered_dim(list, name) matches Some(d) ==> exists|i: int|
            {
                &&& 0 <= i < list.len()
                &&& (#[trigger] list[i]).name@ == name
                &&& list[i].dim == d
                &&& forall|k: int| 0 <= k < i ==> (#[trigger] list[k]).name@ != name
            },
    decreases list.len(),
{
    if list.len() > 0 {
        let rest = list.skip(1);
        registered_dim_is(rest, name);
        if list[0].name@ != name {
            if let Some(d) = registered_dim(rest, name) {
                let i = choose|i: int|
                    {
                        &&& 0 <= i < rest.len()
                        &&& (#[trigger] rest[i]).name@ == name
                        &&& rest[i].dim == d
                        &&& forall|k: int| 0 <= k < i ==> (#[trigger] rest[k]).name@ != name
                    };
                assert(list[i + 1] == rest[i]);
                assert forall|k: int| 0 <= k < i + 1 implies (#[trigger] list[k]).name@ != name by {
                    if k > 0 {
                        assert(list[k] == rest[k - 1]);
                    }
                }
            }
            if is_registered(list, name) {
                let i = choose|i: int| 0 <= i < list.len() && (#[trigger] list[i]).name@ == name;
                assert(rest[i - 1].name@ == name);
            }
        }
    }
}

proof fn supported_dim_is(list: Seq<SupportedModel>, name: Seq<char>)
    ensures
        supported_dim(list, name) is Some <==> exists|i: int|
            0 <= i < list.len() && (#[trigger] list[i]).name@ == name,
        supported_dim(list, name) matches Some(d) ==> exists|i: int|
            {
                &&& 0 <= i < list.len()
                &&& (#[trigger] list[i]).name@ == name
                &&& list[i].dim == d
                &&& forall|k: int| 0 <= k < i ==> (#[trigger] list[k]).name@ != name
            },
    decreases list.len(),
{
    if list.len() > 0 {
        let rest = list.skip(1);
        supported_dim_is(rest, name);
        if list[0].name@ != name {
            if let Some(d) = supported_dim(rest, name) {
                let i = choose|i: int|
                    {
                        &&& 0 <= i < rest.len()
                        &&& (#[trigger] rest[i]).name@ == name
                        &&& rest[i].dim == d
                        &&& forall|k: int| 0 <= k < i ==> (#[trigger] rest[k]).name@ != name
                    };
                assert(list[i + 1] == rest[i]);
                assert forall|k: int| 0 <= k < i + 1 implies (#[trigger] list[k]).name@ != name by {
                    if k > 0 {
                        assert(list[k] == rest[k - 1]);
                    }
                }
            }
            if exists|i: int| 0 <= i < list.len() && (#[trigger] list[i]).name@ == name {
                let i = choose|i: int| 0 <= i < list.len() && (#[trigger] list[i]).name@ == name;
                assert(rest[i - 1].name@ == name);
            }
        }
    }
}

/// A model can be activated exactly where it is registered or loadable and
/// the two do not disagree about its dimension; it is registered first
/// exactly where it is not yet, and with the dimension that it has.
pub proof fn models_are_activated_as_what_they_are(
    registered: Seq<RegisteredModel>,
    supported: Seq<SupportedModel>,
    i: int,
    j: int,
    name: Seq<char>,
)
    requires
        forall|a: int, b: int|
            0 <= a < b < registered.len() ==> (#[trigger] registered[a]).name@ != (
            #[trigger] registered[b]).name@,
        forall|a: int, b: int|
            0 <= a < b < supported.len() ==> (#[trigger] supported[a]).name@ != (
            #[trigger] supported[b]).name@,
    ensures
        ({
            let r = activation(registered_dim(registered, name), supported_dim(supported, name));
            let known = 0 <= i < registered.len() && registered[i].name@ == name;
            let loadable = 0 <= j < supported.len() && supported[j].name@ == name;
            let unknown = forall|a: int|
                0 <= a < registered.len() ==> (#[trigger] registered[a]).name@ != name;
            let unloadable = forall|b: int|
                0 <= b < supported.len() ==> (#[trigger] supported[b]).name@ != name;
            &&& known && loadable && registered[i].dim == supported[j].dim ==> r == Ok::<
                Activation,
                ModelError,
            >(Activation::Activate)
            &&& known && loadable && registered[i].dim != supported[j].dim ==> r == Err::<
                Activation,
                ModelError,
            >(ModelError::DimMismatch { db: registered[i].dim, supported: supported[j].dim })
            &&& known && unloadable ==> r == Ok::<Activation, ModelError>(Activation::Activate)
            &&& unknown && loadable ==> r == Ok::<Activation, ModelError>(
                Activation::RegisterAndActivate(supported[j].dim),
            )
            &&& unknown && unloadable ==> r == Err::<Activation, ModelError>(ModelError::Unknown)
        }),
{
    registered_dim_is(registered, name);
    supported_dim_is(supported, name);
}

/// Whether `rows` are the rows of the models at `places`, in order.
pub open spec fn rows_stand_for(
    rows: Seq<ModelRowModel>,
    places: Seq<int>,
    models: Seq<SupportedModel>,
) -> bool {
    &&& places.len() == rows.len()
    &&& forall|a: int, b: int| 0 <= a < b < places.len() ==> places[a] < places[b]
    &&& forall|j: int|
        0 <= j < places.len() ==> {
            &&& 0 <= #[trigger] places[j] < models.len()
            &&& rows[j].name == models[places[j]].name@
            &&& rows[j].dim == models[places[j]].dim
            &&& !rows[j].active
            &&& !rows[j].indexed
        }
}

proof fn other_places(list: Seq<SupportedModel>, registered: Seq<RegisteredModel>) -> (places: Seq<
    int,
>)
    ensures
        rows_stand_for(other_rows(list, registered), places, list),
        forall|k: int|
            0 <= k < list.len() ==> (places.contains(k) <==> !is_registered(
                registered,
                (#[trigger] list[k]).name@,
            )),
    decreases list.len(),
{
    if list.len() == 0 {
        Seq::empty()
    } else {
        let front = list.drop_last();
        let last = list.len() - 1;
        let before = other_places(front, registered);
        let keeps = !is_registered(registered, list.last().name@);
        let places = if keeps {
            before.push(last)
        } else {
            before
        };
        let rows = other_rows(list, registered);
        assert forall|j: int| 0 <= j < places.len() implies 0 <= #[trigger] places[j] < list.len()
            && rows[j].name == list[places[j]].name@ && rows[j].dim == list[places[j]].dim
            && !rows[j].active && !rows[j].indexed by {
            if j < before.len() {
                assert(places[j] == before[j]);
                assert(rows[j] == other_rows(front, registered)[j]);
                assert(front[before[j]] == list[before[j]]);
            }
        }
        assert forall|k: int| 0 <= k < list.len() implies (places.contains(k) <==> !is_registered(
            registered,
            (#[trigger] list[k]).name@,
        )) by {
            if k < last {
                assert(front[k] == list[k]);
                if before.contains(k) {
                    let j = choose|j: int| 0 <= j < before.len() && before[j] == k;
                    assert(places[j] == k);
                }
                if places.contains(k) {
                    let j = choose|j: int| 0 <= j < places.len() && places[j] == k;
                    assert(before[j] == k);
                }
            } else {
                if keeps {
                    assert(places[before.len() as int] == k);
                }
                if places.contains(k) && !keeps {
                    let j = choose|j: int| 0 <= j < places.len() && places[j] == k;
                    assert(before[j] < front.len());
                }
            }
        }
        places
    }
}

/// Every model is listed once: first the registered ones as they are, then,
/// in order, exactly the loadable ones that are not registered, which are
/// marked as not indexed.
pub proof fn every_model_is_listed_once(
    registered: Seq<RegisteredModel>,
    supported: Seq<SupportedModel>,
)
    ensures
        registered_rows(registered).len() == registered.len(),
        forall|i: int|
            0 <= i < registered.len() ==> {
                let row = #[trigger] registered_rows(registered)[i];
                &&& row.name == registered[i].name@
                &&& row.dim == registered[i].dim
                &&& row.active == registered[i].active
                &&& row.indexed
            },
        exists|places: Seq<int>|
            {
                &&& #[trigger] rows_stand_for(other_rows(supported, registered), places, supported)
                &&& forall|k: int|
                    0 <= k < supported.len() ==> (places.contains(k) <==> !is_registered(
                        registered,
                        (#[trigger] supported[k]).name@,
                    ))
            },
{
    let places = other_places(supported, registered);
}

/// The mark of a line says whether the model is the active one, and its end
/// whether it still has to be indexed.
pub proof fn lines_mark_the_active_model(r: ModelRowModel)
    ensures
        r.active <==> row_line(r)[0] == '*',
        row_line(r).subrange(2, 2 + r.name.len() as int) == r.name,
        r.indexed <==> row_line(r).last() == ')',
{
    reveal_strlit("* ");
    reveal_strlit("  ");
    reveal_strlit(" (dim ");
    reveal_strlit(")");
    reveal_strlit("");
    reveal_strlit(" [available, not indexed]");
    assert(row_line(r).subrange(2, 2 + r.name.len() as int) == r.name);
}

} // verus!
