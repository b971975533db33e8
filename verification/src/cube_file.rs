//! Asset descriptors and the two fragments of source text that each of them
//! generates: the definitions of its variables and their declarations.

use crate::encode::{
    byte_array, decimal, make_cpp_contents_from_file_contents, push_byte_array, push_decimal,
    raw_literal,
};
use crate::ident::{
    basename, create_variable_name, get_file_name_no_folder, is_asset_path, symbol_name,
};
use crate::raster::Raster;
use vstd::prelude::*;
use vstd::string::*;

verus! {

/// A variable that a generated file exports: its type and name in the
/// generated source, the text that initialises it, and what it stands for in
/// the comment above its declaration.
pub struct Variable {
    pub c_type: Seq<char>,
    pub name: Seq<char>,
    pub value: Seq<char>,
    pub what: Seq<char>,
}

/// The definition of a variable: type, name, ` = ` and the initialising text.
pub open spec fn definition(v: Variable) -> Seq<char> {
    v.c_type + " "@ + v.name + " = "@ + v.value
}

/// The declaration of a variable read from `source`: a comment line, then
/// `extern`, type and name, closed by a semicolon.
pub open spec fn declaration(v: Variable, source: Seq<char>) -> Seq<char> {
    "// Generated "@ + v.what + " from "@ + source + "\nextern "@ + v.c_type + " "@ + v.name + ";"@
}

/// The definitions of `vars`, in order, one line break between neighbours.
pub open spec fn definitions(vars: Seq<Variable>) -> Seq<char>
    decreases vars.len(),
{
    if vars.len() == 0 {
        Seq::empty()
    } else if vars.len() == 1 {
        definition(vars[0])
    } else {
        definitions(vars.drop_last()) + "\n"@ + definition(vars.last())
    }
}

/// The declarations of `vars`, in order, one line break between neighbours.
pub open spec fn declarations(vars: Seq<Variable>, source: Seq<char>) -> Seq<char>
    decreases vars.len(),
{
    if vars.len() == 0 {
        Seq::empty()
    } else if vars.len() == 1 {
        declaration(vars[0], source)
    } else {
        declarations(vars.drop_last(), source) + "\n"@ + declaration(vars.last(), source)
    }
}

/// Behind at least one variable, one more adds a line break and its definition.
pub proof fn lemma_definitions_push(vars: Seq<Variable>, v: Variable)
    requires
        vars.len() >= 1,
    ensures
        definitions(vars.push(v)) == definitions(vars) + "\n"@ + definition(v),
{
    assert(vars.push(v).drop_last() =~= vars);
}

/// Behind at least one variable, one more adds a line break and its declaration.
pub proof fn lemma_declarations_push(vars: Seq<Variable>, v: Variable, source: Seq<char>)
    requires
        vars.len() >= 1,
    ensures
        declarations(vars.push(v), source) == declarations(vars, source) + "\n"@ + declaration(
            v,
            source,
        ),
{
    assert(vars.push(v).drop_last() =~= vars);
}

/// The notice that an asset was converted, in the three parts that a console
/// shows in different colours.
pub struct SuccessNotice {
    pub label: String,
    pub file_path: String,
    pub outcome: String,
}

/// What a generated file can do: render the definitions of its variables,
/// render their declarations, and report that it was converted.
pub trait CubeFile {
    /// The path of the asset.
    spec fn source(&self) -> Seq<char>;

    /// The variables that the file exports, in the order in which both
    /// fragments list them.
    spec fn variables(&self) -> Seq<Variable>;

    /// The kind of asset, as the notice names it.
    spec fn kind(&self) -> Seq<char>;

    /// The definition fragment: one definition for each variable.
    fn cpp_string(&self) -> (s: String)
        ensures
            s@ == definitions(self.variables()),
    ;

    /// The declaration fragment: one commented declaration for each variable.
    fn header_string(&self) -> (s: String)
        ensures
            s@ == declarations(self.variables(), self.source()),
    ;

    /// The notice that the asset was converted.
    fn parse_success_message(&self) -> (notice: SuccessNotice)
        ensures
            notice.label@ == "[Cube Compile Time File Parser]"@,
            notice.file_path@ == self.source(),
            notice.outcome@ == " Successfully parsed "@ + self.kind() + " file"@,
    ;
}

/// Appends the head of a definition to `out`: type, name and ` = `.
fn push_definition_head(out: &mut String, c_type: &str, symbol: &str, suffix: &str)
    ensures
        final(out)@ == old(out)@ + c_type@ + " "@ + (symbol@ + suffix@) + " = "@,
{
    out.append(c_type);
    out.append(" ");
    out.append(symbol);
    out.append(suffix);
    out.append(" = ");
    assert(out@ =~= old(out)@ + c_type@ + " "@ + (symbol@ + suffix@) + " = "@);
}

/// Appends a declaration to `out`.
fn push_declaration(
    out: &mut String,
    what: &str,
    source: &str,
    c_type: &str,
    symbol: &str,
    suffix: &str,
)
    ensures
        final(out)@ == old(out)@ + declaration(
            Variable { c_type: c_type@, name: symbol@ + suffix@, value: Seq::empty(), what: what@ },
            source@,
        ),
{
    out.append("// Generated ");
    out.append(what);
    out.append(" from ");
    out.append(source);
    out.append("\nextern ");
    out.append(c_type);
    out.append(" ");
    out.append(symbol);
    out.append(suffix);
    out.append(";");
    assert(out@ =~= old(out)@ + declaration(
        Variable { c_type: c_type@, name: symbol@ + suffix@, value: Seq::empty(), what: what@ },
        source@,
    ));
}

/// Puts a notice together from the path and the kind of the asset.
fn make_notice(file_path: &String, kind: &str) -> (notice: SuccessNotice)
    ensures
        notice.label@ == "[Cube Compile Time File Parser]"@,
        notice.file_path@ == file_path@,
        notice.outcome@ == " Successfully parsed "@ + kind@ + " file"@,
{
    let mut outcome = String::from_str(" Successfully parsed ");
    outcome.append(kind);
    outcome.append(" file");
    SuccessNotice {
        label: String::from_str("[Cube Compile Time File Parser]"),
        file_path: file_path.clone(),
        outcome,
    }
}

/// A text asset: its path, the names derived from it, and its contents as a
/// raw string literal.
pub struct TextFile {
    pub file_path: String,
    pub file_name: String,
    pub contents: String,
    pub variable_name: String,
}

impl TextFile {
    /// The names are the ones that the path gives.
    pub open spec fn well_formed(&self) -> bool {
        &&& is_asset_path(self.file_path@)
        &&& self.file_name@ == basename(self.file_path@)
        &&& self.variable_name@ == symbol_name(self.file_path@)
    }

    /// Describes the text asset at `file_path`, whose file holds `text`.
    pub fn new(file_path: &String, text: String) -> (file: TextFile)
        requires
            is_asset_path(file_path@),
        ensures
            file.file_path@ == file_path@,
            file.file_name@ == basename(file_path@),
            file.contents@ == raw_literal(text@),
            file.variable_name@ == symbol_name(file_path@),
            file.well_formed(),
    {
        TextFile {
            file_path: file_path.clone(),
            file_name: get_file_name_no_folder(file_path),
            contents: make_cpp_contents_from_file_contents(text),
            variable_name: create_variable_name(file_path.as_str()),
        }
    }
}

impl CubeFile for TextFile {
    open spec fn source(&self) -> Seq<char> {
        self.file_path@
    }

    open spec fn variables(&self) -> Seq<Variable> {
        seq![
            Variable {
                c_type: "const char*"@,
                name: self.variable_name@,
                value: self.contents@,
                what: "text file"@,
            },
        ]
    }

    open spec fn kind(&self) -> Seq<char> {
        "text"@
    }

    fn cpp_string(&self) -> (s: String) {
        let mut s = String::new();
        push_definition_head(&mut s, "const char*", self.variable_name.as_str(), "");
        s.append(self.contents.as_str());
        proof {
            reveal_strlit("");
            assert(self.variable_name@ + ""@ =~= self.variable_name@);
            assert(s@ =~= definition(self.variables()[0]));
        }
        s
    }

    fn header_string(&self) -> (s: String) {
        let mut s = String::new();
        push_declaration(
            &mut s,
            "text file",
            self.file_path.as_str(),
            "const char*",
            self.variable_name.as_str(),
            "",
        );
        proof {
            reveal_strlit("");
            assert(self.variable_name@ + ""@ =~= self.variable_name@);
            assert(s@ =~= declaration(self.variables()[0], self.source()));
        }
        s
    }

    fn parse_success_message(&self) -> (notice: SuccessNotice) {
        make_notice(&self.file_path, "text")
    }
}

/// An image asset: its path, the names derived from it, its pixel bytes and
/// their shape.
pub struct ImageFile {
    pub file_path: String,
    pub file_name: String,
    pub variable_name: String,
    pub contents: Vec<u8>,
    pub width: u32,
    pub height: u32,
    pub total_bytes: usize,
}

impl ImageFile {
    /// The names are the ones that the path gives, and the byte count is that
    /// of the pixel bytes.
    pub open spec fn well_formed(&self) -> bool {
        &&& is_asset_path(self.file_path@)
        &&& self.file_name@ == basename(self.file_path@)
        &&& self.variable_name@ == symbol_name(self.file_path@)
        &&& self.total_bytes == self.contents@.len()
    }

    /// Describes the image asset at `file_path`, whose file was decoded to `image`.
    pub fn new(file_path: &String, image: Raster) -> (file: ImageFile)
        requires
            is_asset_path(file_path@),
        ensures
            file.file_path@ == file_path@,
            file.file_name@ == basename(file_path@),
            file.variable_name@ == symbol_name(file_path@),
            file.contents@ == image.bytes@,
            file.width == image.width,
            file.height == image.height,
            file.total_bytes == image.bytes@.len(),
            file.well_formed(),
            image.well_formed() ==> file.total_bytes == file.width * file.height
                * image.bytes_per_pixel,
    {
        let total_bytes: usize = image.bytes.len();
        ImageFile {
            file_path: file_path.clone(),
            file_name: get_file_name_no_folder(file_path),
            variable_name: create_variable_name(file_path.as_str()),
            contents: image.bytes,
            width: image.width,
            height: image.height,
            total_bytes,
        }
    }

    /// The variable that holds the pixel bytes.
    pub open spec fn pixels_variable(&self) -> Variable {
        Variable {
            c_type: "const unsigned char*"@,
            name: self.variable_name@,
            value: byte_array(self.contents@) + ";"@,
            what: "image file"@,
        }
    }

    /// The variable that holds the width in pixels.
    pub open spec fn width_variable(&self) -> Variable {
        Variable {
            c_type: "const unsigned int"@,
            name: self.variable_name@ + "_width"@,
            value: decimal(self.width as nat),
            what: "image pixel width"@,
        }
    }

    /// The variable that holds the height in pixels.
    pub open spec fn height_variable(&self) -> Variable {
        Variable {
            c_type: "const unsigned int"@,
            name: self.variable_name@ + "_height"@,
            value: decimal(self.height as nat),
            what: "image pixel height"@,
        }
    }

    /// The variable that holds the number of pixel bytes.
    pub open spec fn total_bytes_variable(&self) -> Variable {
        Variable {
            c_type: "const unsigned int"@,
            name: self.variable_name@ + "_total_bytes"@,
            value: decimal(self.total_bytes as nat),
            what: "total image bytes"@,
        }
    }
}

impl CubeFile for ImageFile {
    open spec fn source(&self) -> Seq<char> {
        self.file_path@
    }

    open spec fn variables(&self) -> Seq<Variable> {
        seq![
            self.pixels_variable(),
            self.width_variable(),
            self.height_variable(),
            self.total_bytes_variable(),
        ]
    }

    open spec fn kind(&self) -> Seq<char> {
        "image"@
    }

    fn cpp_string(&self) -> (s: String) {
        let name: &str = self.variable_name.as_str();
        let ghost one = seq![self.pixels_variable()];
        let ghost two = one.push(self.width_variable());
        let ghost three = two.push(self.height_variable());
        let mut s = String::new();
        push_definition_head(&mut s, "const unsigned char*", name, "");
        push_byte_array(&mut s, &self.contents);
        s.append(";");
        proof {
            reveal_strlit("");
            assert(name@ + ""@ =~= name@);
            assert(s@ =~= definitions(one));
        }
        s.append("\n");
        push_definition_head(&mut s, "const unsigned int", name, "_width");
        push_decimal(&mut s, self.width as u64);
        proof {
            lemma_definitions_push(one, self.width_variable());
            assert(s@ =~= definitions(two));
        }
        s.append("\n");
        push_definition_head(&mut s, "const unsigned int", name, "_height");
        push_decimal(&mut s, self.height as u64);
        proof {
            lemma_definitions_push(two, self.height_variable());
            assert(s@ =~= definitions(three));
        }
        s.append("\n");
        push_definition_head(&mut s, "const unsigned int", name, "_total_bytes");
        push_decimal(&mut s, self.total_bytes as u64);
        proof {
            lemma_definitions_push(three, self.total_bytes_variable());
            assert(three.push(self.total_bytes_variable()) =~= self.variables());
        }
        s
    }

    fn header_string(&self) -> (s: String) {
        let name: &str = self.variable_name.as_str();
        let path: &str = self.file_path.as_str();
        let ghost one = seq![self.pixels_variable()];
        let ghost two = one.push(self.width_variable());
        let ghost three = two.push(self.height_variable());
        let mut s = String::new();
        push_declaration(&mut s, "image file", path, "const unsigned char*", name, "");
        proof {
            reveal_strlit("");
            assert(name@ + ""@ =~= name@);
            assert(s@ =~= declarations(one, path@));
        }
        s.append("\n");
        push_declaration(&mut s, "image pixel width", path, "const unsigned int", name, "_width");
        proof {
            lemma_declarations_push(one, self.width_variable(), path@);
            assert(s@ =~= declarations(two, path@));
        }
        s.append("\n");
        push_declaration(&mut s, "image pixel height", path, "const unsigned int", name, "_height");
        proof {
            lemma_declarations_push(two, self.height_variable(), path@);
            assert(s@ =~= declarations(three, path@));
        }
        s.append("\n");
        push_declaration(
            &mut s,
            "total image bytes",
            path,
            "const unsigned int",
            name,
            "_total_bytes",
        );
        proof {
            lemma_declarations_push(three, self.total_bytes_variable(), path@);
            assert(three.push(self.total_bytes_variable()) =~= self.variables());
        }
        s
    }

    fn parse_success_message(&self) -> (notice: SuccessNotice) {
        make_notice(&self.file_path, "image")
    }
}

/// A text file defines one variable, named by its symbol and initialised
/// with its contents, and declares that one variable under the same name.
pub proof fn lemma_text_file_fragments(file: TextFile)
    ensures
        file.variables().len() == 1,
        file.variables()[0].name == file.variable_name@,
        definitions(file.variables()) == "const char* "@ + file.variable_name@ + " = "@
            + file.contents@,
        declarations(file.variables(), file.source()) == "// Generated text file from "@
            + file.file_path@ + "\nextern const char* "@ + file.variable_name@ + ";"@,
{
    reveal_strlit("const char*");
    reveal_strlit("const char* ");
    reveal_strlit(" ");
    reveal_strlit("text file");
    reveal_strlit("// Generated ");
    reveal_strlit(" from ");
    reveal_strlit("// Generated text file from ");
    reveal_strlit("\nextern ");
    reveal_strlit("\nextern const char* ");
    assert("const char*"@ + " "@ =~= "const char* "@);
    assert("// Generated "@ + "text file"@ + " from "@ =~= "// Generated text file from "@);
    assert("\nextern "@ + "const char*"@ + " "@ =~= "\nextern const char* "@);
    let v = file.variables()[0];
    assert(definition(v) =~= ("const char*"@ + " "@) + file.variable_name@ + " = "@
        + file.contents@);
    assert(declaration(v, file.source()) =~= ("// Generated "@ + "text file"@ + " from "@)
        + file.file_path@ + ("\nextern "@ + "const char*"@ + " "@) + file.variable_name@ + ";"@);
}

/// An image file defines four variables: the pixel bytes under its symbol,
/// and the width, the height and the number of bytes under the symbol with
/// `_width`, `_height` and `_total_bytes` behind it. It declares those four
/// under the same names, in the same order.
pub proof fn lemma_image_file_variables(file: ImageFile)
    ensures
        file.variables().len() == 4,
        file.variables()[0].name == file.variable_name@,
        file.variables()[1].name == file.variable_name@ + "_width"@,
        file.variables()[2].name == file.variable_name@ + "_height"@,
        file.variables()[3].name == file.variable_name@ + "_total_bytes"@,
        definitions(file.variables()) == definition(file.pixels_variable()) + "\n"@ + definition(
            file.width_variable(),
        ) + "\n"@ + definition(file.height_variable()) + "\n"@ + definition(
            file.total_bytes_variable(),
        ),
        declarations(file.variables(), file.source()) == declaration(
            file.pixels_variable(),
            file.file_path@,
        ) + "\n"@ + declaration(file.width_variable(), file.file_path@) + "\n"@ + declaration(
            file.height_variable(),
            file.file_path@,
        ) + "\n"@ + declaration(file.total_bytes_variable(), file.file_path@),
{
    let one = seq![file.pixels_variable()];
    let two = one.push(file.width_variable());
    let three = two.push(file.height_variable());
    assert(three.push(file.total_bytes_variable()) =~= file.variables());
    lemma_definitions_push(one, file.width_variable());
    lemma_definitions_push(two, file.height_variable());
    lemma_definitions_push(three, file.total_bytes_variable());
    lemma_declarations_push(one, file.width_variable(), file.file_path@);
    lemma_declarations_push(two, file.height_variable(), file.file_path@);
    lemma_declarations_push(three, file.total_bytes_variable(), file.file_path@);
}

} // verus!
