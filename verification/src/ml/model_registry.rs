//! The registry of the models that are known, by name.

use vstd::prelude::*;
use std::path::PathBuf;

verus! {

/// `std::path::PathBuf`, carried through as it is.
#[verifier::external_type_specification]
#[verifier::external_body]
pub struct ExPathBuf(PathBuf);

/// `Clone::clone` of `PathBuf`: a copy of the path. Nothing is claimed of it,
/// since nothing here reads a path.
pub assume_specification[ <PathBuf as Clone>::clone ](p: &PathBuf) -> (r: PathBuf);

/// The format of a model file.
#[derive(Debug, Clone, Copy, PartialEq, Eq, Hash, Structural)]
pub enum ModelType {
    ONNX,
}

/// What is known of a model.
#[derive(Debug, Clone)]
pub struct ModelMetadata {
    pub name: String,
    pub model_type: ModelType,
    pub path: PathBuf,
    pub version: Option<String>,
    pub created_at: Option<String>,
}

/// The models that are known. No two have the same name.
pub struct ModelRegistry {
    models: Vec<ModelMetadata>,
}

/// The position of the first model with the given name among the first `n`,
/// if there is one.
pub open spec fn position_of(models: Seq<ModelMetadata>, name: Seq<char>, n: nat) -> Option<int>
    decreases n,
{
    if n == 0 {
        None
    } else {
        match position_of(models, name, (n - 1) as nat) {
            Some(i) => Some(i),
            None => if models[n - 1].name@ == name {
                Some(n - 1)
            } else {
                None
            },
        }
    }
}

/// The models after one was registered: it takes the place of the model of
/// its name, or comes last if there was none.
pub open spec fn registered(models: Seq<ModelMetadata>, metadata: ModelMetadata) -> Seq<
    ModelMetadata,
> {
    match position_of(models, metadata.name@, models.len()) {
        Some(i) => models.update(i, metadata),
        None => models.push(metadata),
    }
}

/// Whether no two models have the same name.
pub open spec fn distinct_names(models: Seq<ModelMetadata>) -> bool {
    forall|i: int, j: int|
        0 <= i < j < models.len() ==> (#[trigger] models[i]).name@ != (#[trigger] models[j]).name@
}

/// What `position_of` finds is a model of that name, and it finds one
/// whenever there is one.
pub proof fn lemma_position_of(models: Seq<ModelMetadata>, name: Seq<char>, n: nat)
    requires
        n <= models.len(),
    ensures
        position_of(models, name, n) matches Some(i) ==> 0 <= i < n && models[i].name@ == name,
        position_of(models, name, n) is None ==> forall|j: int|
            0 <= j < n ==> (#[trigger] models[j]).name@ != name,
    decreases n,
{
    if n > 0 {
        lemma_position_of(models, name, (n - 1) as nat);
    }
}

/// What is found among the first models is found among all of them.
pub proof fn lemma_position_stays(models: Seq<ModelMetadata>, name: Seq<char>, k: nat, n: nat)
    requires
        k <= n,
        position_of(models, name, k) is Some,
    ensures
        position_of(models, name, n) == position_of(models, name, k),
    decreases n,
{
    if n > k {
        lemma_position_stays(models, name, k, (n - 1) as nat);
    }
}

/// Registering keeps the names distinct.
pub proof fn lemma_registered_distinct(models: Seq<ModelMetadata>, metadata: ModelMetadata)
    requires
        distinct_names(models),
    ensures
        distinct_names(registered(models, metadata)),
{
    lemma_position_of(models, metadata.name@, models.len());
}

impl View for ModelRegistry {
    type V = Seq<ModelMetadata>;

    closed spec fn view(&self) -> Seq<ModelMetadata> {
        self.models@
    }
}

impl ModelRegistry {
    /// The invariant of the registry: no two models have the same name.
    pub open spec fn wf(&self) -> bool {
        distinct_names(self@)
    }

    /// The empty registry.
    pub fn new() -> (r: Self)
        ensures
            r@ == Seq::<ModelMetadata>::empty(),
            r.wf(),
    {
        ModelRegistry { models: Vec::new() }
    }

    /// Where the model of a name stands, if there is one.
    fn find(&self, name: &String) -> (r: Option<usize>)
        ensures
            r is Some <==> position_of(self@, name@, self@.len()) is Some,
            r matches Some(i) ==> position_of(self@, name@, self@.len()) == Some(i as int) && i
                < self@.len(),
    {
        let mut i: usize = 0;
        while i < self.models.len()
            invariant
                i <= self.models@.len(),
                position_of(self.models@, name@, i as nat) is None,
            decreases self.models@.len() - i,
        {
            if self.models[i].name == *name {
                proof {
                    lemma_position_stays(self.models@, name@, (i + 1) as nat, self.models@.len());
                }
                return Some(i);
            }
            i += 1;
        }
        None
    }

    /// Registers a model under its name, in place of the model that was
    /// registered under that name before, if any.
    pub fn register(&mut self, metadata: ModelMetadata)
        requires
            old(self).wf(),
        ensures
            final(self)@ == registered(old(self)@, metadata),
            final(self).wf(),
    {
        proof {
            lemma_registered_distinct(self@, metadata);
        }
        match self.find(&metadata.name) {
            Some(i) => {
                self.models[i] = metadata;
            },
            None => {
                self.models.push(metadata);
            },
        }
    }

    /// The model that is registered under a name.
    pub fn get(&self, name: &str) -> (r: Option<&ModelMetadata>)
        ensures
            r is Some <==> position_of(self@, name@, self@.len()) is Some,
            r matches Some(m) ==> m.name@ == name@ && *m == self@[position_of(
                self@,
                name@,
                self@.len(),
            )->0],
    {
        proof {
            lemma_position_of(self@, name@, self@.len());
        }
        let key = name.to_string();
        match self.find(&key) {
            Some(i) => Some(&self.models[i]),
            None => None,
        }
    }

    /// All registered models, in the order in which their names were first
    /// registered.
    pub fn list(&self) -> (r: Vec<&ModelMetadata>)
        ensures
            r@.len() == self@.len(),
            forall|i: int| 0 <= i < r@.len() ==> *(#[trigger] r@[i]) == self@[i],
    {
        let mut r: Vec<&ModelMetadata> = Vec::new();
        let mut i: usize = 0;
        while i < self.models.len()
            invariant
                i <= self.models@.len(),
                r@.len() == i,
                forall|j: int| 0 <= j < i ==> *(#[trigger] r@[j]) == self.models@[j],
            decreases self.models@.len() - i,
        {
            r.push(&self.models[i]);
            i += 1;
        }
        r
    }
}

impl Default for ModelRegistry {
    fn default() -> (r: Self)
        ensures
            r@ == Seq::<ModelMetadata>::empty(),
    {
        Self::new()
    }
}

} // verus!
