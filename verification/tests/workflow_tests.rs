use llmo_tools::context_workflow::ContextWorkflow;
use llmo_tools::model_selector::ModelType;

#[test]
fn analysis_prompt_wraps_the_content_and_script() {
    let prompt = ContextWorkflow::create_analysis_prompt("THE CODE", "./run.sh");
    let mut expected = String::new();
    expected.push_str("CODEBASE ANALYSIS AND CONTEXT:\n\n");
    expected.push_str("This is a comprehensive analysis of the codebase you'll be working with. ");
    expected.push_str("Use this information to answer questions and make suggestions about the code.\n\n");
    expected.push_str("THE CODE\n\n");
    expected.push_str("END OF CODEBASE ANALYSIS\n\n");
    expected.push_str("Based on this codebase, you can now answer questions about:\n");
    expected.push_str("- Code structure and architecture\n");
    expected.push_str("- Performance optimization opportunities\n");
    expected.push_str("- Bug fixes and improvements\n");
    expected.push_str("- Adding new features\n");
    expected.push_str("- Understanding existing functionality\n");
    expected.push_str("- You can use this script to run the code and analyze it: ./run.sh\n");
    expected.push_str("END OF CONTEXT\n");
    assert_eq!(prompt, expected);
}

#[test]
fn context_docs_hold_the_prompt_and_any_addition() {
    let docs = ContextWorkflow::create_context_docs("C", None, "run");
    assert_eq!(docs.len(), 1);
    assert_eq!(docs[0], ContextWorkflow::create_analysis_prompt("C", "run"));
    let docs = ContextWorkflow::create_context_docs("C", Some("extra".to_string()), "run");
    assert_eq!(docs.len(), 2);
    assert_eq!(docs[1], "extra");
}

#[test]
fn model_selection_defaults_to_local() {
    assert_eq!(ModelType::from_setting(&Some("gemini".to_string())), ModelType::Gemini);
    assert_eq!(ModelType::from_setting(&Some("local".to_string())), ModelType::Local);
    assert_eq!(ModelType::from_setting(&Some("other".to_string())), ModelType::Local);
    assert_eq!(ModelType::from_setting(&None), ModelType::Local);
}
