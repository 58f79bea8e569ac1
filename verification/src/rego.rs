use vstd::prelude::*;

verus! {

#[verifier::external_type_specification]
#[verifier::external_body]
pub struct ExRegoEngine(regorus::Engine);

/// The parse error regorus reports for a module, or nothing when the module
/// parses. Parsing depends on the module's name and source text alone.
pub uninterp spec fn rego_parse_err(name: Seq<char>, source: Seq<char>) -> Option<Seq<char>>;

/// A compiled policy artifact: a regorus engine together with the modules
/// it was built from, in the order they were added.
pub struct RegoArtifact {
    engine: regorus::Engine,
    modules: Vec<(String, String)>,
}

impl RegoArtifact {
    /// The modules the artifact was built from.
    pub closed spec fn modules(&self) -> Seq<(String, String)> {
        self.modules@
    }

    /// How many modules the artifact holds.
    pub fn module_count(&self) -> (r: usize)
        ensures
            r == self.modules().len(),
    {
        self.modules.len()
    }

    /// Relies on regorus::Engine::new: a fresh engine holds no modules.
    #[verifier::external_body]
    pub(crate) fn new() -> (a: RegoArtifact)
        ensures
            a.modules() =~= Seq::<(String, String)>::empty(),
    {
        RegoArtifact { engine: regorus::Engine::new(), modules: Vec::new() }
    }

    /// Relies on regorus::Engine::add_policy: parsing a module depends on its
    /// name and source alone; on success the module joins the engine's set,
    /// and on failure the engine's set is unchanged.
    #[verifier::external_body]
    pub(crate) fn add_module(&mut self, name: String, source: String) -> (r: Result<(), String>)
        ensures
            r is Ok <==> rego_parse_err(name@, source@) is None,
            r is Ok ==> final(self).modules() == old(self).modules().push((name, source)),
            r matches Err(e) ==> e@ == rego_parse_err(name@, source@).unwrap()
                && final(self).modules() == old(self).modules(),
    {
        match self.engine.add_policy(name.clone(), source.clone()) {
            Ok(_) => {
                self.modules.push((name, source));
                Ok(())
            }
            Err(error) => Err(error.to_string()),
        }
    }

    /// Relies on regorus::Engine::set_input_json and
    /// regorus::Engine::eval_bool_query: evaluates the boolean `query`
    /// against `input_json`. Rego builtins may read the clock, so nothing is
    /// promised of the outcome; callers state what holds either way.
    #[verifier::external_body]
    pub(crate) fn eval_bool(&self, query: &str, input_json: &str) -> (r: Result<bool, String>)
    {
        let mut engine = self.engine.clone();
        if let Err(error) = engine.set_input_json(input_json) {
            return Err(error.to_string());
        }
        engine.eval_bool_query(query.to_string(), false).map_err(|error| error.to_string())
    }
}

} // verus!
