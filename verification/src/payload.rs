//! The upstream payload, typed and partial.
//!
//! The upstream service answers with a loosely structured JSON document. The
//! pipeline reads five things out of it: the embedded result message, whether
//! the item list holds a most recent item, and that item's two measurement
//! fields and timestamp. Each is optional — absence is a value here, never a
//! traversal failure. The JSON decoding itself is serde_json's work, behind
//! one trusted wrapper; everything downstream of the typed payload is
//! verified.

use vstd::prelude::*;

verus! {

/// What the pipeline reads from one upstream response body.
pub struct UpstreamPayload {
    pub result_msg: Option<String>,
    pub has_item: bool,
    pub pm10_value: Option<String>,
    pub pm25_value: Option<String>,
    pub data_time: Option<String>,
}

/// The payload by value: each text field as its character sequence.
pub struct UpstreamPayloadView {
    pub result_msg: Option<Seq<char>>,
    pub has_item: bool,
    pub pm10_value: Option<Seq<char>>,
    pub pm25_value: Option<Seq<char>>,
    pub data_time: Option<Seq<char>>,
}

/// An optional text field by value.
pub open spec fn opt_str_view(o: Option<String>) -> Option<Seq<char>> {
    match o {
        Option::Some(s) => Option::Some(s@),
        Option::None => Option::None,
    }
}

impl View for UpstreamPayload {
    type V = UpstreamPayloadView;

    open spec fn view(&self) -> UpstreamPayloadView {
        UpstreamPayloadView {
            result_msg: opt_str_view(self.result_msg),
            has_item: self.has_item,
            pm10_value: opt_str_view(self.pm10_value),
            pm25_value: opt_str_view(self.pm25_value),
            data_time: opt_str_view(self.data_time),
        }
    }
}

/// What serde_json reads out of one response body: `Err` holds the parse
/// error's rendered text where the body is not well-formed JSON, `Ok` the
/// payload fields found under the fixed upstream paths. One parse is a
/// function of the body text alone.
pub uninterp spec fn upstream_parse(body: Seq<char>) -> Result<UpstreamPayloadView, Seq<char>>;

/// Relies on `serde_json::from_str` and `serde_json::Value::pointer` /
/// `as_str`: decodes the body and reads the result message from
/// `response.header.resultMsg` and the most recent item's fields from
/// `response.body.items[0]`, each `None` where the path is missing or not
/// text. `Err` carries the parse error rendered by its `Debug` form.
#[verifier::external_body]
pub fn parse_upstream(body: &str) -> (r: Result<UpstreamPayload, String>)
    ensures
        upstream_parse(body@) == (match r {
            Result::Ok(ref p) => Result::Ok::<UpstreamPayloadView, Seq<char>>(p@),
            Result::Err(ref e) => Result::Err::<UpstreamPayloadView, Seq<char>>(e@),
        }),
{
    let v: serde_json::Value = match serde_json::from_str(body) {
        Ok(v) => v,
        Err(e) => return Err(format!("{:?}", e)),
    };
    let s = |p: &str| v.pointer(p).and_then(serde_json::Value::as_str).map(String::from);
    Ok(UpstreamPayload {
        result_msg: s("/response/header/resultMsg"),
        has_item: v.pointer("/response/body/items/0").is_some(),
        pm10_value: s("/response/body/items/0/pm10Value"),
        pm25_value: s("/response/body/items/0/pm25Value"),
        data_time: s("/response/body/items/0/dataTime"),
    })
}

} // verus!
