//! Runtime-module synthesis: synthetic modules injected into a chunk to
//! provide the runtime-support symbols accumulated during code generation.
//!
//! A runtime module serves exactly one runtime; attachment to several
//! runtimes at once is a construction error.

use vstd::prelude::*;

use crate::codegen::{runtime_global_name, runtime_global_name_spec, RuntimeGlobal};
use crate::json::{json_string_of, to_json_string};
use crate::BuildError;

verus! {

/// A deployable grouping of modules produced as one output unit, with the
/// names of the runtimes it assumes.
#[derive(Debug)]
pub struct Chunk {
    pub runtime: Vec<String>,
}

/// The id recorded for a runtime name: the first match in the table; with
/// duplicate names the first entry wins.
pub open spec fn runtime_id_of(ids: Seq<(String, String)>, name: Seq<char>) -> Option<Seq<char>>
    decreases ids.len(),
{
    if ids.len() == 0 {
        None
    } else if ids[0].0@ == name {
        Some(ids[0].1@)
    } else {
        runtime_id_of(ids.drop_first(), name)
    }
}

/// The generated assignment of the runtime id global to an already
/// JSON-encoded id.
pub fn render_runtime_id_assignment(json_id: &String) -> (r: String)
    ensures
        r@ == runtime_global_name_spec(RuntimeGlobal::RuntimeId) + " = "@ + json_id@ + ";"@,
{
    let mut out = runtime_global_name(RuntimeGlobal::RuntimeId);
    out.append(" = ");
    out.append(json_id.as_str());
    out.append(";");
    out
}

/// The synthetic module that assigns the chunk's runtime id to the runtime
/// id global.
#[derive(Debug)]
pub struct RuntimeIdRuntimeModule {
    pub id: String,
    pub chunk: Option<usize>,
}

impl Default for RuntimeIdRuntimeModule {
    fn default() -> (r: RuntimeIdRuntimeModule)
        ensures
            r.id@ == "webpack/runtime/runtime_id"@,
            r.chunk is None,
    {
        RuntimeIdRuntimeModule { id: String::from_str("webpack/runtime/runtime_id"), chunk: None }
    }
}

impl RuntimeIdRuntimeModule {
    pub fn attach(&mut self, chunk: usize)
        ensures
            final(self).chunk == Some(chunk),
            final(self).id == old(self).id,
    {
        self.chunk = Some(chunk);
    }

    pub fn name(&self) -> (r: String)
        ensures
            r@ == self.id@,
    {
        self.id.clone()
    }

    /// Render the module: `<runtime id global> = <id as JSON>;` for the one
    /// runtime of the attached chunk.
    ///
    /// An unattached module or a dangling chunk handle is a construction
    /// error, as is a chunk that does not have exactly one runtime; a
    /// runtime without a recorded id cannot be rendered.
    pub fn generate(&self, chunks: &Vec<Chunk>, runtime_ids: &Vec<(String, String)>) -> (r: Result<
        String,
        BuildError,
    >)
        ensures
            self.chunk is None ==> r == Err::<String, BuildError>(
                BuildError::RuntimeModuleNotAttached,
            ),
            self.chunk matches Some(c) && c >= chunks@.len() ==> r == Err::<String, BuildError>(
                BuildError::RuntimeModuleNotAttached,
            ),
            self.chunk matches Some(c) && c < chunks@.len() && chunks@[c as int].runtime@.len()
                != 1 ==> r == Err::<String, BuildError>(BuildError::MultiRuntimeAttachment),
            (match self.chunk {
                Some(c) => c < chunks@.len() && chunks@[c as int].runtime@.len() == 1
                    ==> (match runtime_id_of(runtime_ids@, chunks@[c as int].runtime@[0]@) {
                    Some(id) => r matches Ok(s) && s@ == runtime_global_name_spec(
                        RuntimeGlobal::RuntimeId,
                    ) + " = "@ + json_string_of(id) + ";"@,
                    None => r == Err::<String, BuildError>(BuildError::MissingRuntimeId),
                }),
                None => true,
            }),
            r is Ok ==> (self.chunk matches Some(c) && c < chunks@.len()
                && chunks@[c as int].runtime@.len() == 1 && runtime_id_of(
                runtime_ids@,
                chunks@[c as int].runtime@[0]@,
            ) is Some),
    {
        let c = match self.chunk {
            Some(c) => c,
            None => {
                return Err(BuildError::RuntimeModuleNotAttached);
            },
        };
        if c >= chunks.len() {
            return Err(BuildError::RuntimeModuleNotAttached);
        }
        let chunk = &chunks[c];
        if chunk.runtime.len() != 1 {
            return Err(BuildError::MultiRuntimeAttachment);
        }
        let runtime_name = &chunk.runtime[0];
        let ghost all_ids = runtime_ids@;
        let mut i: usize = 0;
        proof {
            assert(all_ids.skip(0) =~= all_ids);
        }
        while i < runtime_ids.len()
            invariant
                i <= all_ids.len(),
                all_ids == runtime_ids@,
                self.chunk == Some(c),
                c < chunks@.len(),
                chunks@[c as int].runtime@.len() == 1,
                runtime_name@ == chunks@[c as int].runtime@[0]@,
                runtime_id_of(all_ids, runtime_name@) == runtime_id_of(
                    all_ids.skip(i as int),
                    runtime_name@,
                ),
            decreases all_ids.len() - i,
        {
            proof {
                assert(all_ids.skip(i as int)[0] == all_ids[i as int]);
                assert(all_ids.skip(i as int).drop_first() =~= all_ids.skip(i as int + 1));
            }
            if runtime_ids[i].0.eq(runtime_name) {
                let id = &runtime_ids[i].1;
                assert(runtime_id_of(all_ids, runtime_name@) == Some(id@));
                let j = to_json_string(id);
                return Ok(render_runtime_id_assignment(&j));
            }
            i = i + 1;
        }
        proof {
            assert(all_ids.skip(i as int).len() == 0);
        }
        Err(BuildError::MissingRuntimeId)
    }
}

} // verus!
