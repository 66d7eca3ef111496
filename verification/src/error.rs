//! Errors that carry the text shown to an operator.
use vstd::prelude::*;

verus! {

/// A refused configuration or a failed step, with its message.
#[derive(Debug)]
pub struct OutputError {
    pub message: String,
}

impl View for OutputError {
    type V = Seq<char>;

    open spec fn view(&self) -> Seq<char> {
        self.message@
    }
}

impl OutputError {
    pub fn new(message: &str) -> (e: OutputError)
        ensures
            e@ == message@,
    {
        OutputError { message: message.to_owned() }
    }

    /// The message.
    pub fn message(&self) -> (s: &str)
        ensures
            s@ == self@,
    {
        self.message.as_str()
    }
}

/// The text of an error about the output called `name`.
pub open spec fn output_text(name: Seq<char>, rest: Seq<char>) -> Seq<char> {
    "output '"@ + name + "': "@ + rest
}

/// Renders `output '<name>': <rest>`.
pub fn output_message(name: &str, rest: &str) -> (s: String)
    ensures
        s@ == output_text(name@, rest@),
{
    let mut s = "output '".to_owned();
    s.append(name);
    s.append("': ");
    s.append(rest);
    s
}

/// An error about the output called `name`.
pub fn output_error(name: &str, rest: &str) -> (e: OutputError)
    ensures
        e@ == output_text(name@, rest@),
{
    OutputError { message: output_message(name, rest) }
}

/// `before`, then `after`.
pub fn cat2(before: &str, after: &str) -> (s: String)
    ensures
        s@ == before@ + after@,
{
    let mut s = before.to_owned();
    s.append(after);
    s
}

/// `before`, then `middle`, then `after`.
pub fn cat3(before: &str, middle: &str, after: &str) -> (s: String)
    ensures
        s@ == before@ + middle@ + after@,
{
    let mut s = before.to_owned();
    s.append(middle);
    s.append(after);
    s
}

/// A result with both sides taken by their views.
pub open spec fn outcome<T: View>(r: Result<T, OutputError>) -> Result<T::V, Seq<char>> {
    match r {
        Ok(value) => Ok(value@),
        Err(e) => Err(e@),
    }
}

/// An optional value taken by its view.
pub open spec fn option_view<T: View>(o: Option<T>) -> Option<T::V> {
    match o {
        Some(value) => Some(value@),
        None => None,
    }
}

/// A list taken by the views of its items.
pub open spec fn list_views<T: View>(list: Seq<T>) -> Seq<T::V> {
    list.map_values(|item: T| item@)
}

/// A list or an error, by their views.
pub open spec fn list_outcome<T: View>(r: Result<Vec<T>, OutputError>) -> Result<
    Seq<T::V>,
    Seq<char>,
> {
    match r {
        Ok(list) => Ok(list_views(list@)),
        Err(e) => Err(e@),
    }
}

} // verus!
