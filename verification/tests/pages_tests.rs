use name_filter::Decision;
use name_filter::HtmlTemplate;
use name_filter::pages::joke::ShowTemplate;
use name_filter::pages::lookup::IndexTemplate;
use name_filter::pages::lookup::Request;
use name_filter::pages::lookup::ResponseTemplate;

#[test]
fn accepted_claim_renders_the_cheer() {
    let page = ResponseTemplate::for_decision(&Decision::Accepted);
    assert_eq!(page.message, "Noice!");
    assert_eq!(page.text_color, "text-blue-800");
}

#[test]
fn rejected_claim_asks_for_another_name() {
    let page = ResponseTemplate::for_decision(&Decision::Rejected);
    assert_eq!(page.message, "Another name plz!");
    assert_eq!(page.text_color, "text-red-800");
}

#[test]
fn page_models_carry_their_data() {
    let request = Request { name: "alice".to_owned() };
    assert_eq!(request.name, "alice");
    let wrapped = HtmlTemplate(IndexTemplate);
    let _landing: IndexTemplate = wrapped.0;
    let joke = HtmlTemplate(ShowTemplate { joke: "a pun".to_owned() });
    assert_eq!(joke.0.joke, "a pun");
}
