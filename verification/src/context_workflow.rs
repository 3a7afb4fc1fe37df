//! Helpers that turn an analysis bundle into the context documents a
//! conversation agent is initialized with.

use vstd::prelude::*;

verus! {

/// Helper functions for context-aware agent workflows.
pub struct ContextWorkflow;

/// The fixed text around an analysis prompt: the banner before the bundle and
/// the guidance after it, ending with the execution script and a closing line.
pub open spec fn analysis_prompt(content: Seq<char>, script: Seq<char>) -> Seq<char> {
    "CODEBASE ANALYSIS AND CONTEXT:\n\nThis is a comprehensive analysis of the codebase you'll be working with. Use this information to answer questions and make suggestions about the code.\n\n"@
        + content
        + "\n\nEND OF CODEBASE ANALYSIS\n\nBased on this codebase, you can now answer questions about:\n- Code structure and architecture\n- Performance optimization opportunities\n- Bug fixes and improvements\n- Adding new features\n- Understanding existing functionality\n- You can use this script to run the code and analyze it: "@
        + script + "\nEND OF CONTEXT\n"@
}

impl ContextWorkflow {
    /// Generate a summary analysis prompt of the codebase content.
    pub fn create_analysis_prompt(codebase_content: &str, execution_script: &str) -> (r: String)
        ensures
            r@ == analysis_prompt(codebase_content@, execution_script@),
    {
        let mut m = String::from_str(
            "CODEBASE ANALYSIS AND CONTEXT:\n\nThis is a comprehensive analysis of the codebase you'll be working with. Use this information to answer questions and make suggestions about the code.\n\n",
        );
        m.append(codebase_content);
        m.append(
            "\n\nEND OF CODEBASE ANALYSIS\n\nBased on this codebase, you can now answer questions about:\n- Code structure and architecture\n- Performance optimization opportunities\n- Bug fixes and improvements\n- Adding new features\n- Understanding existing functionality\n- You can use this script to run the code and analyze it: ",
        );
        m.append(execution_script);
        m.append("\nEND OF CONTEXT\n");
        m
    }

    /// Create context documents for agent initialization: the analysis prompt,
    /// then any additional context given.
    pub fn create_context_docs(
        codebase_content: &str,
        additional_context: Option<String>,
        execution_script: &str,
    ) -> (r: Vec<String>)
        ensures
            r@.len() == (if additional_context is Some {
                2int
            } else {
                1int
            }),
            r@[0]@ == analysis_prompt(codebase_content@, execution_script@),
            additional_context matches Some(a) ==> r@[1] == a,
    {
        let mut docs: Vec<String> = Vec::new();
        docs.push(Self::create_analysis_prompt(codebase_content, execution_script));
        if let Some(additional) = additional_context {
            docs.push(additional);
        }
        docs
    }
}

} // verus!
