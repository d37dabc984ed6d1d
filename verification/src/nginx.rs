//! What goes into the child's configuration file.

use minijinja::Value;
use vstd::prelude::*;
use vstd::string::*;
use crate::lua::option_text;
use crate::text::{
    chars_of, decimal_digits, find_char, len_before, parse_unsigned, push_decimal, string_of, texts,
    unsigned_value,
};

verus! {

/// The minor version whose behaviour the configuration follows unless the
/// environment says otherwise.
pub const RESTY_COMPAT_LATEST: u64 = 28;

/// The lines that fill the configuration template, section by section.
#[derive(Debug, Clone, PartialEq, Eq)]
pub struct Vars {
    pub events_conf: Vec<String>,
    pub main_conf: Vec<String>,
    pub stream_enabled: bool,
    pub stream_conf: Vec<String>,
    pub http_conf: Vec<String>,
    pub lua_loader: Vec<String>,
}

/// The part of a version that names its minor number: what stands between
/// the first and the second `.`, or the whole where no `.` occurs. One
/// leading `v` does not count.
pub open spec fn minor_field(value: Seq<char>) -> Seq<char> {
    let body = if value.len() > 0 && value[0] == 'v' {
        value.drop_first()
    } else {
        value
    };
    let dot = len_before(body, '.') as int;
    if dot >= body.len() {
        body
    } else {
        let rest = body.skip(dot + 1);
        rest.take(len_before(rest, '.') as int)
    }
}

/// The minor version that the variable's value selects: the number in its
/// minor field, or the latest where there is no value or no number.
pub open spec fn compat_version_of(value: Option<Seq<char>>) -> u64 {
    match value {
        None => RESTY_COMPAT_LATEST,
        Some(value) => match unsigned_value(minor_field(value), u64::MAX as nat) {
            Some(n) => n as u64,
            None => RESTY_COMPAT_LATEST,
        },
    }
}

/// The minor version that the value of the environment's variable selects.
pub fn get_resty_compat_version(value: Option<&str>) -> (version: u64)
    ensures
        version == compat_version_of(
            match value {
                Some(v) => Some(v@),
                None => None,
            },
        ),
{
    let value = match value {
        Some(value) => value,
        None => {
            return RESTY_COMPAT_LATEST;
        },
    };
    let chars = chars_of(value);
    let start: usize = if chars.len() > 0 && chars[0] == 'v' {
        1
    } else {
        0
    };
    let ghost body = chars@.skip(start as int);
    assert(body == if value@.len() > 0 && value@[0] == 'v' {
        value@.drop_first()
    } else {
        value@
    });
    let dot = find_char(&chars, start, '.');
    let field = if dot >= chars.len() {
        string_of(&chars, start, chars.len())
    } else {
        let end = find_char(&chars, dot + 1, '.');
        proof {
            let rest = body.skip(dot - start + 1);
            assert(rest == chars@.skip(dot + 1));
            assert(rest.take(end - (dot + 1)) == chars@.subrange(dot + 1, end as int));
        }
        string_of(&chars, dot + 1, end)
    };
    match parse_unsigned(field.as_str(), u64::MAX) {
        Some(n) => n,
        None => RESTY_COMPAT_LATEST,
    }
}

/// The template of the child's configuration file.
///
/// It takes in the lists `main_conf`, `events_conf`, `stream_conf`,
/// `http_conf` and `lua_loader`, the flag `stream_enabled` and the number
/// `resty_compat_version`.
pub const NGINX_CONF: &'static str = r#"daemon off;
master_process off;
worker_processes 1;
pid logs/nginx.pid;

{% for line in main_conf %}{{ line }}
{% endfor %}
events {
{% for line in events_conf %}    {{ line }}
{% endfor %}}
{% if stream_enabled %}
stream {
    access_log off;
    lua_socket_log_errors off;
{% for line in stream_conf %}    {{ line }}
{% endfor %}}
{% endif %}
http {
    access_log off;
    lua_socket_log_errors off;
{% for line in http_conf %}    {{ line }}
{% endfor %}
    init_by_lua_block {
        ngx.config.is_console = true

        local stdout = io.stdout
        local ngx_null = ngx.null
        local maxn = table.maxn
        local unpack = unpack
        local concat = table.concat

        local expand_table
        function expand_table(src, inplace)
            local n = maxn(src)
            local dst = inplace and src or {}
            for i = 1, n do
                local arg = src[i]
                local typ = type(arg)
                if arg == nil then
                    dst[i] = "nil"

                elseif typ == "boolean" then
                    if arg then
                        dst[i] = "true"
                    else
                        dst[i] = "false"
                    end

                elseif arg == ngx_null then
                    dst[i] = "null"

                elseif typ == "table" then
                    dst[i] = expand_table(arg, false)

                elseif typ ~= "string" then
                    dst[i] = tostring(arg)

                else
                    dst[i] = arg
                end
            end
            return concat(dst)
        end

        local function output(...)
            local args = {...}

            return stdout:write(expand_table(args, true))
        end

        ngx.orig_print = ngx.print
        ngx.print = output

        ngx.orig_say = ngx.say
        ngx.say = function (...)
                local ok, err = output(...)
                if ok then
                    return output("\n")
                end
                return ok, err
            end
        print = ngx.say

        ngx.flush = function (...) return stdout:flush() end
        -- we cannot close stdout here due to a bug in Lua:
        ngx.eof = function (...) return true end
{% if resty_compat_version >= 29 %}        ngx.orig_exit = ngx.exit
{% endif %}        ngx.exit = os.exit
    }

    init_worker_by_lua_block {
        local exit = os.exit
        local stderr = io.stderr
        local ffi = require "ffi"

        local function handle_err(err)
            if err then
                err = string.gsub(err, "^init_worker_by_lua:%d+: ", "")
                stderr:write("ERROR: ", err, "\n")
            end
            return exit(1)
        end

        local ok, err = pcall(function ()
            if not ngx.config
               or not ngx.config.ngx_lua_version
               or ngx.config.ngx_lua_version < 10009
            then
                error("at least ngx_lua 0.10.9 is required")
            end

            local signal_graceful_exit =
                require("ngx.process").signal_graceful_exit
            if not signal_graceful_exit then
                error("lua-resty-core library is too old; "
                      .. "missing the signal_graceful_exit() function "
                      .. "in ngx.process")
            end

{% for line in lua_loader %}            {{ line }}
{% endfor %}
            local ok, err = ngx.timer.at(0, function ()
                local ok, err = xpcall(gen, function (err)
                    -- level 3: we skip this function and the
                    -- error() call itself in our stacktrace
                    local trace = debug.traceback(err, 3)
                    return handle_err(trace)
                end)
                if not ok then
                    return handle_err(err)
                end
                if ffi.abi("win") then
                    return exit(0)
                end
                signal_graceful_exit()
            end)
            if not ok then
                return handle_err(err)
            end
        end)

        if not ok then
            return handle_err(err)
        end
    }
}
"#;

/// What `minijinja::Environment::render_str` makes of a template and the
/// values handed to it under the names that [`NGINX_CONF`] uses: the text
/// rendered, or nothing where the template is not well-formed or cannot be
/// rendered with these values.
pub uninterp spec fn rendered(
    template: Seq<char>,
    main_conf: Seq<Seq<char>>,
    http_conf: Seq<Seq<char>>,
    stream_enabled: bool,
    stream_conf: Seq<Seq<char>>,
    lua_loader: Seq<Seq<char>>,
    events_conf: Seq<Seq<char>>,
    resty_compat_version: nat,
) -> Option<Seq<char>>;

/// `minijinja::Environment::render_str` on a fresh environment, with the
/// fields of `vars` and `compat` as the template's values. For the template
/// of this module, which only walks lists and compares a number, the result
/// depends on the values alone.
#[verifier::external_body]
fn render_template(template: &str, vars: &Vars, compat: u64) -> (r: Option<String>)
    requires
        template@ == NGINX_CONF@,
    ensures
        option_text(r) == rendered(
            template@,
            texts(vars.main_conf@),
            texts(vars.http_conf@),
            vars.stream_enabled,
            texts(vars.stream_conf@),
            texts(vars.lua_loader@),
            texts(vars.events_conf@),
            compat as nat,
        ),
{
    let ctx = Value::from_iter([
        ("main_conf", Value::from_serialize(&vars.main_conf)),
        ("http_conf", Value::from_serialize(&vars.http_conf)),
        ("stream_enabled", Value::from(vars.stream_enabled)),
        ("stream_conf", Value::from_serialize(&vars.stream_conf)),
        ("lua_loader", Value::from_serialize(&vars.lua_loader)),
        ("events_conf", Value::from_serialize(&vars.events_conf)),
        ("resty_compat_version", Value::from(compat)),
    ]);
    minijinja::Environment::new().render_str(template, ctx).ok()
}

/// The text of the child's configuration file: [`NGINX_CONF`] filled in
/// with `vars` and the minor version `compat`.
pub fn render_config(vars: &Vars, compat: u64) -> (r: Option<String>)
    ensures
        option_text(r) == rendered(
            NGINX_CONF@,
            texts(vars.main_conf@),
            texts(vars.http_conf@),
            vars.stream_enabled,
            texts(vars.stream_conf@),
            texts(vars.lua_loader@),
            texts(vars.events_conf@),
            compat as nat,
        ),
{
    render_template(NGINX_CONF, vars, compat)
}

/// The line that sets the most connections a worker takes.
pub open spec fn events_conf_lines(worker_connections: u32) -> Seq<Seq<char>> {
    seq!["worker_connections "@ + decimal_digits(worker_connections as nat) + ";"@]
}

impl Vars {
    /// The sections of the configuration file, put together.
    pub fn new(
        worker_connections: u32,
        main_conf: Vec<String>,
        no_stream: bool,
        stream_conf: Vec<String>,
        http_conf: Vec<String>,
        lua_loader: Vec<String>,
    ) -> (vars: Vars)
        ensures
            texts(vars.events_conf@) == events_conf_lines(worker_connections),
            vars.main_conf == main_conf,
            vars.stream_enabled == !no_stream,
            vars.stream_conf == stream_conf,
            vars.http_conf == http_conf,
            vars.lua_loader == lua_loader,
    {
        let mut line = String::from_str("worker_connections ");
        push_decimal(&mut line, worker_connections as u128);
        line.append(";");
        let mut events_conf: Vec<String> = Vec::new();
        events_conf.push(line);
        Vars {
            events_conf,
            main_conf,
            stream_enabled: !no_stream,
            stream_conf,
            http_conf,
            lua_loader,
        }
    }
}

} // verus!
