//! SQL function templates of the MSSQL dialect.
use vstd::prelude::*;
use vstd::string::*;

verus! {

pub ghost struct TemplateModel {
    pub key: Seq<char>,
    pub sql: Seq<char>,
}

/// The templates of a list, as models.
pub open spec fn templates(list: Seq<(String, String)>) -> Seq<TemplateModel> {
    list.map_values(|entry: (String, String)| TemplateModel { key: entry.0@, sql: entry.1@ })
}

/// The template of a function, under the key that function templates have.
pub open spec fn function_template(name: Seq<char>, sql: Seq<char>) -> TemplateModel {
    TemplateModel { key: "functions/"@ + name, sql }
}

/// The trimming functions of MSSQL, each with one argument.
pub open spec fn trim_templates() -> Seq<TemplateModel> {
    seq![
        function_template("TRIM_1"@, "LTRIM(RTRIM({{ args[0] }}))"@),
        function_template("BTRIM_1"@, "LTRIM(RTRIM({{ args[0] }}))"@),
        function_template("LTRIM_1"@, "LTRIM({{ args[0] }})"@),
        function_template("RTRIM_1"@, "RTRIM({{ args[0] }})"@),
    ]
}

fn function_entry(name: &str, sql: &str) -> (r: (String, String))
    ensures
        r.0@ == "functions/"@ + name@,
        r.1@ == sql@,
{
    ("functions/".to_owned().concat(name), sql.to_owned())
}

/// The trimming functions of MSSQL. There is no template for any other number of arguments.
pub fn mssql_trim_templates() -> (r: Vec<(String, String)>)
    ensures
        templates(r@) == trim_templates(),
{
    let mut list: Vec<(String, String)> = Vec::new();
    list.push(function_entry("TRIM_1", "LTRIM(RTRIM({{ args[0] }}))"));
    list.push(function_entry("BTRIM_1", "LTRIM(RTRIM({{ args[0] }}))"));
    list.push(function_entry("LTRIM_1", "LTRIM({{ args[0] }})"));
    list.push(function_entry("RTRIM_1", "RTRIM({{ args[0] }})"));
    assert(templates(list@) =~= trim_templates());
    list
}

/// No trimming function of MSSQL has a generic template, one under its bare name.
pub proof fn law_no_generic_trim_template(i: int)
    requires
        0 <= i < trim_templates().len(),
    ensures
        trim_templates()[i].key != "functions/"@ + "TRIM"@,
        trim_templates()[i].key != "functions/"@ + "BTRIM"@,
        trim_templates()[i].key != "functions/"@ + "LTRIM"@,
        trim_templates()[i].key != "functions/"@ + "RTRIM"@,
{
    reveal_strlit("TRIM_1");
    reveal_strlit("BTRIM_1");
    reveal_strlit("LTRIM_1");
    reveal_strlit("RTRIM_1");
    reveal_strlit("TRIM");
    reveal_strlit("BTRIM");
    reveal_strlit("LTRIM");
    reveal_strlit("RTRIM");
    assert(trim_templates()[i].key.last() == '1');
    assert(("functions/"@ + "TRIM"@).last() == 'M');
    assert(("functions/"@ + "BTRIM"@).last() == 'M');
    assert(("functions/"@ + "LTRIM"@).last() == 'M');
    assert(("functions/"@ + "RTRIM"@).last() == 'M');
}

} // verus!
