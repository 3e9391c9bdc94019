//! Discoveries the agent flags for the operator. Each one is appended as a
//! single JSON line to a journal inside the workspace, so it survives
//! session restarts; the appending itself is file I/O at the application
//! edge.

use vstd::prelude::*;

use crate::json::JVal;
use crate::json::SpecJson;
use crate::json::assoc_view;
use crate::json::object_json;
use crate::json::push_object;

verus! {

/// A single discovery flagged by the agent.
pub struct Discovery {
    /// Timestamp of the moment it was flagged.
    pub timestamp: String,
    /// Short title summarizing the discovery.
    pub title: String,
    /// Longer description with context and details.
    pub description: String,
}

impl Discovery {
    /// The JSON line this discovery is journaled as.
    pub open spec fn spec_json(self) -> Seq<char> {
        object_json(
            seq![
                ("timestamp"@, SpecJson::SStr(self.timestamp@)),
                ("title"@, SpecJson::SStr(self.title@)),
                ("description"@, SpecJson::SStr(self.description@)),
            ],
        )
    }

    /// Serialize this discovery to one JSON line.
    pub fn to_json(&self) -> (r: String)
        ensures
            r@ == self.spec_json(),
    {
        let mut pairs: Vec<(String, JVal)> = Vec::new();
        pairs.push(("timestamp".to_owned(), JVal::JStr(self.timestamp.clone())));
        pairs.push(("title".to_owned(), JVal::JStr(self.title.clone())));
        pairs.push(("description".to_owned(), JVal::JStr(self.description.clone())));
        let mut out = String::new();
        proof {
            assert(assoc_view(pairs@) =~= self.spec_pairs_view());
        }
        push_object(&mut out, &pairs);
        out
    }

    /// The members of the JSON line.
    pub open spec fn spec_pairs_view(self) -> Seq<(Seq<char>, SpecJson)> {
        seq![
            ("timestamp"@, SpecJson::SStr(self.timestamp@)),
            ("title"@, SpecJson::SStr(self.title@)),
            ("description"@, SpecJson::SStr(self.description@)),
        ]
    }
}

/// The discoveries journal's path inside a workspace.
pub fn discovery_file_path(workspace: &str) -> (r: String)
    ensures
        r@ == workspace@ + "/.ouro-discoveries.jsonl"@,
{
    let mut out = workspace.to_owned();
    out.append("/.ouro-discoveries.jsonl");
    out
}

} // verus!
