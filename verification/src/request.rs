//! From the parameters that a FastCGI peer sends to the parameters of a request.

use crate::number::{decimal, to_decimal};
use crate::params::{last_pair_holds, or_insert, pairs_map, pairs_map_names, Pair, Params};
use crate::php_sapi::{
    registrable, server_variables, server_variables_are_the_parameters, software_pair,
};
use crate::text::{optional_text, to_ascii_uppercase, upper_text, upper_text_idempotent};
use vstd::prelude::*;

verus! {

/// A parameter as received: the name, and the value where it was text.
pub type Field = (Seq<char>, Option<Seq<char>>);

/// The texts of received parameters.
pub open spec fn fields_view(fields: Seq<(String, Option<String>)>) -> Seq<Field> {
    fields.map_values(|field: (String, Option<String>)| (field.0@, optional_text(field.1)))
}

/// A received parameter as PHP expects it: an upper-case name, and an empty value for none.
pub open spec fn named(field: Field) -> Pair {
    (
        upper_text(field.0),
        match field.1 {
            Some(value) => value,
            None => Seq::empty(),
        },
    )
}

/// The received parameters as PHP expects them.
pub open spec fn named_fields(fields: Seq<Field>) -> Seq<Pair> {
    fields.map_values(|field: Field| named(field))
}

/// The parameters of a request: what was received, and behind it what every request has.
///
/// `secs` is the time in seconds since the epoch, `precise` the same time with its fraction.
pub open spec fn request_params(
    fields: Seq<Field>,
    secs: nat,
    precise: Seq<char>,
) -> Map<Seq<char>, Seq<char>> {
    let received = pairs_map(named_fields(fields));
    let with_method = or_insert(received, "REQUEST_METHOD"@, "GET"@);
    let with_protocol = or_insert(with_method, "SERVER_PROTOCOL"@, "HTTP/1.1"@);
    let with_gateway = or_insert(with_protocol, "GATEWAY_INTERFACE"@, "CGI/1.1"@);
    let with_time = or_insert(with_gateway, "REQUEST_TIME"@, decimal(secs));
    or_insert(with_time, "REQUEST_TIME_FLOAT"@, precise)
}

/// Makes the parameters of a request from those that were received, if any were.
pub fn extract_params(
    fields: Option<Vec<(String, Option<String>)>>,
    now_secs: u64,
    now_precise: &str,
) -> (params: Params)
    ensures
        params@ == request_params(
            match fields {
                Some(received) => fields_view(received@),
                None => Seq::empty(),
            },
            now_secs as nat,
            now_precise@,
        ),
        params.wf(),
{
    let mut params = Params::new();
    let ghost mut pairs: Seq<Pair> = Seq::empty();
    if let Some(received) = fields {
        let ghost all = named_fields(fields_view(received@));
        let mut i: usize = 0;
        assert(all.take(0) =~= Seq::<Pair>::empty());
        while i < received.len()
            invariant
                i <= received@.len(),
                all == named_fields(fields_view(received@)),
                params@ == pairs_map(all.take(i as int)),
            decreases received@.len() - i,
        {
            let name = to_ascii_uppercase(received[i].0.as_str());
            let value = match &received[i].1 {
                Some(value) => value.clone(),
                None => String::new(),
            };
            proof {
                assert(all.take(i + 1).drop_last() =~= all.take(i as int));
                assert(all.take(i + 1).last() == all[i as int]);
                assert(all[i as int].0 == name@);
                assert(all[i as int].1 =~= value@);
            }
            params.insert(name, value);
            i = i + 1;
        }
        proof {
            assert(all.take(received@.len() as int) =~= all);
            pairs = all;
        }
    } else {
        assert(named_fields(Seq::<Field>::empty()) =~= pairs);
    }
    assert(params@ == pairs_map(pairs));
    params.insert_default("REQUEST_METHOD", "GET");
    params.insert_default("SERVER_PROTOCOL", "HTTP/1.1");
    params.insert_default("GATEWAY_INTERFACE", "CGI/1.1");
    let time = to_decimal(now_secs);
    params.insert_default("REQUEST_TIME", time.as_str());
    params.insert_default("REQUEST_TIME_FLOAT", now_precise);
    params
}

/// Whether a name is one of those that every request has.
pub open spec fn is_default_name(name: Seq<char>) -> bool {
    ||| name == "REQUEST_METHOD"@
    ||| name == "SERVER_PROTOCOL"@
    ||| name == "GATEWAY_INTERFACE"@
    ||| name == "REQUEST_TIME"@
    ||| name == "REQUEST_TIME_FLOAT"@
}

/// Every parameter of a request has an upper-case name.
pub proof fn names_are_upper_case(
    fields: Seq<Field>,
    secs: nat,
    precise: Seq<char>,
    name: Seq<char>,
)
    requires
        request_params(fields, secs, precise).dom().contains(name),
    ensures
        upper_text(name) == name,
{
    let pairs = named_fields(fields);
    if pairs_map(pairs).dom().contains(name) {
        pairs_map_names(pairs, name);
        let i = choose|i: int| 0 <= i < pairs.len() && (#[trigger] pairs[i]).0 == name;
        assert(pairs[i] == named(fields[i]));
        upper_text_idempotent(fields[i].0);
    } else {
        assert(is_default_name(name));
        default_names_are_upper_case(name);
    }
}

proof fn default_names_are_upper_case(name: Seq<char>)
    requires
        is_default_name(name),
    ensures
        upper_text(name) == name,
{
    reveal_strlit("REQUEST_METHOD");
    reveal_strlit("SERVER_PROTOCOL");
    reveal_strlit("GATEWAY_INTERFACE");
    reveal_strlit("REQUEST_TIME");
    reveal_strlit("REQUEST_TIME_FLOAT");
    assert(upper_text(name) =~= name);
}

/// What was received is never replaced by a default, and nothing but the defaults is added.
pub proof fn received_values_hold(
    fields: Seq<Field>,
    secs: nat,
    precise: Seq<char>,
    name: Seq<char>,
)
    ensures
        pairs_map(named_fields(fields)).dom().contains(name) ==> {
            &&& request_params(fields, secs, precise).dom().contains(name)
            &&& request_params(fields, secs, precise)[name] == pairs_map(named_fields(fields))[name]
        },
        request_params(fields, secs, precise).dom().contains(name) <==> pairs_map(
            named_fields(fields),
        ).dom().contains(name) || is_default_name(name),
{
}

/// PHP code finds in `$_SERVER` what the peer sent: under the name in upper case, the last value
/// that came for it.
///
/// Left out are parameters that hold a NUL, and the name of the server, which is not the peer's to
/// set.
pub proof fn php_sees_what_was_received(
    fields: Seq<Field>,
    secs: nat,
    precise: Seq<char>,
    i: int,
)
    requires
        0 <= i < fields.len(),
        forall|j: int|
            i < j < fields.len() ==> upper_text((#[trigger] fields[j]).0) != upper_text(fields[i].0),
        registrable(named(fields[i])),
        named(fields[i]).0 != software_pair().0,
    ensures
        server_variables(request_params(fields, secs, precise)).dom().contains(named(fields[i]).0),
        server_variables(request_params(fields, secs, precise))[named(fields[i]).0] == named(
            fields[i],
        ).1,
{
    let pairs = named_fields(fields);
    assert(pairs[i] == named(fields[i]));
    assert forall|j: int| i < j < pairs.len() implies (#[trigger] pairs[j]).0 != pairs[i].0 by {
        assert(pairs[j] == named(fields[j]));
    }
    last_pair_holds(pairs, i);
    received_values_hold(fields, secs, precise, pairs[i].0);
}

/// Every variable in `$_SERVER` was sent by the peer, is one that every request has, or names the
/// server.
pub proof fn variables_have_a_source(
    fields: Seq<Field>,
    secs: nat,
    precise: Seq<char>,
    name: Seq<char>,
)
    requires
        server_variables(request_params(fields, secs, precise)).dom().contains(name),
    ensures
        name == software_pair().0 || is_default_name(name) || exists|i: int|
            0 <= i < fields.len() && upper_text((#[trigger] fields[i]).0) == name,
{
    received_values_hold(fields, secs, precise, name);
    let pairs = named_fields(fields);
    pairs_map_names(pairs, name);
    if pairs_map(pairs).dom().contains(name) {
        let i = choose|i: int| 0 <= i < pairs.len() && (#[trigger] pairs[i]).0 == name;
        assert(upper_text(fields[i].0) == name);
    }
}

/// The texts of received parameters are the names and values that were received, in order.
pub proof fn fields_view_is_the_texts(fields: Seq<(String, Option<String>)>)
    ensures
        fields_view(fields).len() == fields.len(),
        forall|i: int|
            0 <= i < fields.len() ==> {
                &&& (#[trigger] fields_view(fields)[i]).0 == fields[i].0@
                &&& fields_view(fields)[i].1 is None <==> fields[i].1 is None
                &&& fields[i].1 matches Some(value) ==> fields_view(fields)[i].1 == Some(value@)
            },
{
}

/// The last value that was received under a name, in whatever case, is that of the parameter with
/// the name in upper case; a parameter without a value has the empty text. PHP finds the same in
/// `$_SERVER`, unless the name or the value holds a NUL or it is the name of the server.
pub proof fn last_received_value_holds(
    fields: Seq<Field>,
    secs: nat,
    precise: Seq<char>,
    i: int,
)
    requires
        0 <= i < fields.len(),
        forall|j: int|
            i < j < fields.len() ==> upper_text((#[trigger] fields[j]).0) != upper_text(fields[i].0),
    ensures
        ({
            let params = request_params(fields, secs, precise);
            let name = upper_text(fields[i].0);
            &&& params.dom().contains(name)
            &&& fields[i].1 matches Some(value) ==> params[name] == value
            &&& fields[i].1 is None ==> params[name].len() == 0
            &&& !name.contains('\0') && !params[name].contains('\0') && name != "SERVER_SOFTWARE"@
                ==> {
                &&& server_variables(params).dom().contains(name)
                &&& fields[i].1 matches Some(value) ==> server_variables(params)[name] == value
                &&& fields[i].1 is None ==> server_variables(params)[name].len() == 0
            }
        }),
{
    let pairs = named_fields(fields);
    assert(pairs[i] == named(fields[i]));
    assert forall|j: int| i < j < pairs.len() implies (#[trigger] pairs[j]).0 != pairs[i].0 by {
        assert(pairs[j] == named(fields[j]));
    }
    last_pair_holds(pairs, i);
    received_values_hold(fields, secs, precise, pairs[i].0);
    server_variables_are_the_parameters(
        request_params(fields, secs, precise),
        upper_text(fields[i].0),
    );
}

/// A request that says nothing of it is a `GET` by HTTP/1.1 over CGI/1.1, at the time it came in;
/// a name that was not received and is none of these five is not set.
pub proof fn unsaid_parameters_have_defaults(
    fields: Seq<Field>,
    secs: nat,
    precise: Seq<char>,
    name: Seq<char>,
)
    requires
        forall|i: int| 0 <= i < fields.len() ==> upper_text((#[trigger] fields[i]).0) != name,
    ensures
        ({
            let params = request_params(fields, secs, precise);
            &&& params.dom().contains(name) <==> name == "REQUEST_METHOD"@ || name
                == "SERVER_PROTOCOL"@ || name == "GATEWAY_INTERFACE"@ || name == "REQUEST_TIME"@
                || name == "REQUEST_TIME_FLOAT"@
            &&& name == "REQUEST_METHOD"@ ==> params[name] == "GET"@
            &&& name == "SERVER_PROTOCOL"@ ==> params[name] == "HTTP/1.1"@
            &&& name == "GATEWAY_INTERFACE"@ ==> params[name] == "CGI/1.1"@
            &&& name == "REQUEST_TIME"@ ==> params[name] == decimal(secs)
            &&& name == "REQUEST_TIME_FLOAT"@ ==> params[name] == precise
        }),
{
    let pairs = named_fields(fields);
    pairs_map_names(pairs, name);
    if pairs_map(pairs).dom().contains(name) {
        let i = choose|i: int| 0 <= i < pairs.len() && (#[trigger] pairs[i]).0 == name;
        assert(upper_text(fields[i].0) == name);
    }
    reveal_strlit("REQUEST_METHOD");
    reveal_strlit("SERVER_PROTOCOL");
    reveal_strlit("GATEWAY_INTERFACE");
    reveal_strlit("REQUEST_TIME");
    reveal_strlit("REQUEST_TIME_FLOAT");
    assert("REQUEST_METHOD"@.len() == 14);
    assert("SERVER_PROTOCOL"@.len() == 15);
    assert("GATEWAY_INTERFACE"@.len() == 17);
    assert("REQUEST_TIME"@.len() == 12);
    assert("REQUEST_TIME_FLOAT"@.len() == 18);
}

} // verus!
