//! What is reported of files in each language.

use tldr_ast::extract::ModuleInfo;
use tldr_ast::files::{extract_file, load};
use tldr_ast::types::{ClassInfo, FieldInfo, FunctionInfo, ImportInfo};

fn components(path: &str) -> Vec<String> {
    path.split('/').map(|part| part.to_string()).collect()
}

/// What is reported of a file with the given suffix and content.
fn extract(suffix: &str, source: &str) -> ModuleInfo {
    let path = components(&format!("/tmp/file{}", suffix));
    let loaded = load(&path, None, source);
    extract_file(&path, &None, &loaded).unwrap()
}

fn function_line(f: &FunctionInfo) -> String {
    let mut line = format!("{}({})", f.name, f.params.join(", "));
    if let Some(text) = &f.return_type {
        line += &format!(" -> {}", text);
    }
    if let Some(text) = &f.docstring {
        line += &format!(" doc {:?}", text);
    }
    if f.is_method {
        line += " method";
    }
    if f.is_async {
        line += " async";
    }
    if !f.decorators.is_empty() {
        line += &format!(" {:?}", f.decorators);
    }
    if let Some(text) = &f.visibility {
        line += &format!(" {}", text);
    }
    if let Some(text) = &f.state_mutability {
        line += &format!(" {}", text);
    }
    line + &format!(" {}-{}", f.line_number, f.line_end)
}

fn field_line(f: &FieldInfo) -> String {
    let mut line = f.name.clone();
    if let Some(text) = &f.field_type {
        line += &format!(": {}", text);
    }
    if let Some(text) = &f.default_value {
        line += &format!(" = {}", text);
    }
    if f.is_static {
        line += " static";
    }
    if f.is_constant {
        line += " constant";
    }
    if let Some(text) = &f.visibility {
        line += &format!(" {}", text);
    }
    line + &format!(" {}-{}", f.line_number, f.line_end)
}

fn class_line(c: &ClassInfo) -> String {
    let mut line = c.name.clone();
    if !c.bases.is_empty() {
        line += &format!(" bases {:?}", c.bases);
    }
    if let Some(text) = &c.docstring {
        line += &format!(" doc {:?}", text);
    }
    if !c.decorators.is_empty() {
        line += &format!(" {:?}", c.decorators);
    }
    if let Some(text) = &c.kind {
        line += &format!(" kind {}", text);
    }
    line + &format!(" {}-{}", c.line_number, c.line_end)
}

fn import_line(i: &ImportInfo) -> String {
    let mut line = i.module.clone();
    if !i.names.is_empty() {
        line += &format!(" {:?}", i.names);
    }
    if let Some(flag) = i.is_from {
        line += if flag { " from" } else { " plain" };
    }
    if let Some(text) = &i.alias {
        line += &format!(" as {}", text);
    }
    line + &format!(" {}", i.line)
}

/// All that is reported of a file, line by line.
fn report(suffix: &str, source: &str) -> Vec<String> {
    let info = extract(suffix, source);
    let mut lines: Vec<String> = vec![];
    if let Some(text) = &info.docstring {
        lines.push(format!("doc {:?}", text));
    }
    for i in &info.imports {
        lines.push(format!("import {}", import_line(i)));
    }
    for f in &info.functions {
        lines.push(format!("function {}", function_line(f)));
    }
    for c in &info.classes {
        lines.push(format!("class {}", class_line(c)));
        for f in &c.methods {
            lines.push(format!("  {}", function_line(f)));
        }
        for f in &c.fields {
            lines.push(format!("  field {}", field_line(f)));
        }
    }
    for f in &info.constants {
        lines.push(format!("constant {}", field_line(f)));
    }
    let mut names = info.call_graph.calls.keys();
    names.sort();
    for name in names {
        lines.push(format!("{} calls {:?}", name, info.call_graph.calls.get(&name).unwrap()));
    }
    let mut names = info.call_graph.called_by.keys();
    names.sort();
    for name in names {
        lines.push(format!("{} by {:?}", name, info.call_graph.called_by.get(&name).unwrap()));
    }
    lines
}

#[test]
fn python_files() {
    let source = r#""""Module doc."""
import os

MAX_SIZE = 10
limit: int = 3

class Base(object, abc.ABC):
    """Base doc."""
    COUNT: int = 0
    _hidden = None

    def __init__(self, x, y=1, *args, **kwargs):
        self.x = x
        if y:
            self._y = y

    @property
    def value(self) -> int:
        """Value doc."""
        return helper(self.x)

@decorated
class Derived(Base):
    pass

def helper(n: int, m: str = "a") -> int:
    return Base.value(n)

async def run():
    helper(1)
"#;
    assert_eq!(
        report(".py", source),
        vec![
            "doc \"Module doc.\"",
            "import os plain 2",
            "function helper(n, m) -> int 26-27",
            "function run() async 29-30",
            "class Base bases [\"object\", \"abc.ABC\"] doc \"Base doc.\" 7-20",
            "  __init__(self, x, y, *args, **kwargs) method 12-15",
            "  value(self) -> int doc \"Value doc.\" method [\"property\"] 18-20",
            "  field COUNT: int = 0 static constant public 9-9",
            "  field _hidden = None static private 10-10",
            "  field x = x public 13-13",
            "  field _y = y private 15-15",
            "class Derived bases [\"Base\"] [\"decorated\"] 23-24",
            "constant MAX_SIZE = 10 static constant 4-4",
            "helper calls [\"value\"]",
            "run calls [\"helper\"]",
            "value calls [\"helper\"]",
            "helper by [\"run\", \"value\"]",
            "value by [\"helper\"]",
        ]
    );
}

#[test]
fn typescript_functions_and_imports() {
    let source = r#"/** Module doc. */
import { a, b as c } from "mod";
import def from 'def';
import * as ns from "ns";
export { d } from "re";
const lib = require(`lib`);

export const MAX_COUNT = 5;

/**
 * Adds.
 */
export function add(x: number, y?: string): number { return inner(x); }

const arrow = async (p: number) => p;
obj.method = function named(q) { return q; };
const table = { key: function (z: number) { return z; }, "str": (w: string) => w, short(s: string) { return s; } };
"#;
    assert_eq!(
        report(".ts", source),
        vec![
            "doc \"/** Module doc. */\"",
            "import mod [\"a\", \"b\"] from 2",
            "import def [\"def\"] plain 3",
            "import ns [\"*\", \"ns\"] from 4",
            "import re from 5",
            "import lib from 6",
            "function add(x, y) -> number doc \"Adds.\" 13-13",
            "function arrow(p) async 15-15",
            "function method(q) public 16-16",
            "function key(z) 17-17",
            "function str(w) 17-17",
            "function short(s) 17-17",
            "constant MAX_COUNT = 5 static constant 8-8",
            "add calls [\"inner\"]",
            "inner by [\"add\"]",
        ]
    );
}

#[test]
fn typescript_classes() {
    let source = r#"/** Shapes. */
export class Shape extends Base implements Draw {
  static count: number = 0;
  #secret = 1;
  private name?: string;
  readonly kind = "k";
  constructor(public id: number) { super(); }
  get size(): number { return 1; }
  set size(v: number) {}
  area(a: string): void;
  area(a: number): void;
  area(a: any): void { add(1); }
}

interface Draw { draw(): void; }

type Id = string | number;

function add(_x: number) {}
function _hidden() {}
"#;
    assert_eq!(
        report(".ts", source),
        vec![
            "doc \"/** Shapes. */\"",
            "function add(_x) 19-19",
            "function _hidden() private 20-20",
            "class Shape bases [\"Base\"] doc \"Shapes.\" 2-13",
            "  constructor(id) method 7-7",
            "  size() -> number method 8-8",
            "  size(v) method 9-9",
            "  area(a) -> void method 12-12",
            "  field count: number = 0 static public 3-3",
            "  field #secret = 1 public 4-4",
            "  field name: string private 5-5",
            "  field kind = \"k\" public 6-6",
            "class Draw 15-15",
            "  draw() -> void method 15-15",
            "class Id 17-17",
            "area calls [\"add\"]",
            "constructor calls [\"super\"]",
            "add by [\"area\"]",
            "super by [\"constructor\"]",
        ]
    );
}

#[test]
fn go_files() {
    let source = r#"package main

import (
	"fmt"
	str "strings"
)

const MaxSize int = 10
var counter = 1

// Point is a point.
// Two lines.
type Point struct {
	X, Y int
	name string
}

type Shape interface {
	// Area doc.
	Area(scale float64) float64
	rename(n string) (string, error)
}

/* Block doc. */
func New(x, y int, z string) *Point { return helper(x) }

func (p *Point) Move(dx int) { New(dx, 1, "") }

func (o Other) run() { fmt.Println() }

func helper(n int) *Point { return nil }
"#;
    assert_eq!(
        report(".go", source),
        vec![
            "import fmt plain 4",
            "import strings plain as str 5",
            "function New(x, y, z) -> *Point doc \"Block doc.\" public 25-25",
            "function helper(n) -> *Point private 31-31",
            "class Point doc \"Point is a point.\\nTwo lines.\" 13-16",
            "  Move(dx) method public 27-27",
            "  field X: int public 14-14",
            "  field Y: int public 14-14",
            "  field name: string private 15-15",
            "class Shape 18-22",
            "  Area(scale) -> float64 doc \"Area doc.\" method public 20-20",
            "  rename(n) -> (string, error) method private 21-21",
            "class Other 0-0",
            "  run() method private 29-29",
            "constant MaxSize: int = 10 static constant public 8-8",
            "constant counter = 1 static private 9-9",
            "Move calls [\"New\"]",
            "New calls [\"helper\"]",
            "run calls [\"fmt.Println\"]",
            "New by [\"Move\"]",
            "fmt.Println by [\"run\"]",
            "helper by [\"New\"]",
        ]
    );
}

#[test]
fn rust_imports_and_functions() {
    let source = r#"//! Crate doc.
//! More.
use std::{io::{self, Read}, fmt as f};
use crate::*;
mod other;
extern crate serde as s;

pub const LIMIT: u32 = 3;
static mut COUNT: i32 = 0;

#[inline]
/** Block doc. */
async fn helper(v: i32) -> i32 { v }

#[cfg(all(test, unix))]
mod inner {
    #[test]
    fn in_test() {}
}

mod TestUtils_Tests {
    fn named() {}
}
"#;
    assert_eq!(
        report(".rs", source),
        vec![
            "doc \"Crate doc.\\nMore.\"",
            "import std::io [\"self\", \"Read\", \"fmt\"] from 3",
            "import crate [\"*\"] from 4",
            "import other plain 5",
            "import serde plain as s 6",
            "function helper(v) -> i32 doc \"Block doc.\" async [\"inline\"] 13-13",
            "function in_test() [\"test\", \"cfg(all(test, unix))\"] 18-18",
            "function named() [\"cfg(test)/* via mod TestUtils_Tests */\"] 22-22",
            "constant LIMIT: u32 = 3 constant public 8-8",
            "constant COUNT: i32 = 0 static constant private 9-9",
        ]
    );
}

#[test]
fn rust_types() {
    let source = r#"/// A point.
#[derive(Debug)]
pub struct Point<T> { pub x: T, pub(crate) y: i32, z: u8 }

pub enum Kind { A, B }

pub trait Shape {
    fn area(&self) -> f64;
    fn twice(&self) -> f64 { self.area() }
}

impl<T> Point<T> {
    pub fn new(x: T, mut y: i32) -> Self { make(y) }
}

impl<T> Shape for Point<T> {
    fn area(&self) -> f64 { 0.0 }
}

impl Elsewhere {
    fn lost() {}
}
"#;
    assert_eq!(
        report(".rs", source),
        vec![
            "function twice(&self) -> f64 9-9",
            "class Point doc \"A point.\\n\" 3-3",
            "  new(x, y) -> Self method 13-13",
            "  area(&self) -> f64 method [\"trait_impl\"] 17-17",
            "  field x: T public 3-3",
            "  field y: i32 pub(crate) 3-3",
            "  field z: u8 private 3-3",
            "class Kind 5-5",
            "class Shape 7-10",
            "  area(&self) -> f64 method 8-8",
            "  twice(&self) -> f64 method 9-9",
            "new calls [\"make\"]",
            "twice calls [\"area\"]",
            "area by [\"twice\"]",
            "make by [\"new\"]",
        ]
    );
}

#[test]
fn java_files() {
    let source = r#"package a.b;
import java.util.List;
import static java.lang.Math.*;

/** Shape doc. */
@Deprecated
public class Shape extends Base<String> implements Draw, a.b.Other {
    private static final int MAX = 3;
    protected String name, label = "x";
    int plain;

    /**
     * Makes.
     */
    @Override
    public Shape(int a, String b) { area(1.0); }

    double area(double scale) { return helper(); }
    private static int helper() { return 1; }
}
interface Draw extends Other { void draw(); }
"#;
    assert_eq!(
        report(".java", source),
        vec![
            "import java.util.List plain 2",
            "import java.lang.Math.* from 3",
            "function Shape(a, b) doc \"Makes.\" method public 16-16",
            "function area(scale) -> double method 18-18",
            "function helper() -> int method private 19-19",
            "function draw() -> void method 21-21",
            "class Shape bases [\"Base\", \"Draw\", \"a.b.Other\"] doc \"Shape doc.\" 7-20",
            "  Shape(a, b) doc \"Makes.\" method public 16-16",
            "  area(scale) -> double method 18-18",
            "  helper() -> int method private 19-19",
            "  field MAX: int = 3 static constant private 8-8",
            "  field name: String protected 9-9",
            "  field label: String = \"x\" protected 9-9",
            "  field plain: int package 10-10",
            "class Draw bases [\"Other\"] 21-21",
            "  draw() -> void method 21-21",
            "area calls [\"helper\"]",
            "helper by [\"area\"]",
        ]
    );
}

#[test]
fn c_files() {
    let source = r#"#include <stdio.h>
#include "a.h"
#define MAX_LEN 10
static const int LIMIT = 5;

/* Adds two.
 * Really. */
static int add(int a, char **b, const char *c[], void (*cb)(int)) { return helper(a); }

// Line doc
// second
int *helper(void) { return 0; }

int (*wrapped)(int a) { return 0; }
"#;
    assert_eq!(
        report(".c", source),
        vec![
            "import stdio.h from 1",
            "import a.h plain 2",
            "function add(a, b, c, (*cb)(int)) -> int doc \"/* Adds two.\\n * Really. */\" 8-8",
            "function helper() -> int doc \"// Line doc\\n// second\" 12-12",
            "function wrapped(a) -> int 14-14",
            "constant MAX_LEN = 10 static constant 3-4",
            "constant LIMIT: int = 5 static constant 4-4",
        ]
    );
}

#[test]
fn cpp_files() {
    let source = r#"#include <vector>
constexpr int MAX_N = 4;
/// Doc line.
class Shape : public Base, private Other {
public:
    Shape(int a) : x(a) {}
    virtual ~Shape() {}
    int area(double s) const { return 1; }
    static void run();
private:
    int hidden() { return 2; }
    int x;
};
struct Pt { int get() { return 1; } };
namespace ns {
int Shape::outer(int q) { return q; }
template <typename T> T make(T v) { return v; }
}
class API_EXPORT Decorated { public: void go() {} };
"#;
    assert_eq!(
        report(".cpp", source),
        vec![
            "import vector from 1",
            "function outer(q) -> int 16-16",
            "function make(v) -> T 17-17",
            "class Shape bases [\"Base\", \"Other\"] doc \"/// Doc line.\" 4-13",
            "  Shape(a) method public 6-6",
            "  ~Shape() method [\"virtual\"] public 7-7",
            "  area(s) -> int method public 8-8",
            "  hidden() -> int method private 11-11",
            "class Pt 14-14",
            "  get() -> int method public 14-14",
            "class Decorated 19-19",
            "constant MAX_N: int = 4 static constant 2-2",
        ]
    );
}

#[test]
fn ruby_files() {
    let source = r#"require 'json'
require_relative "lib/a"
MAX = 3

# Module doc.
module Outer
  # Inner doc.
  class Inner < Base
    def run(a, b = 1, *rest, key: 2, **opts, &blk)
    end

    def self.make
    end
  end
  def helper; end
end

# Top doc.
# More.
def top(x)
end
"#;
    assert_eq!(
        report(".rb", source),
        vec![
            "import json 1",
            "import lib/a 2",
            "function top(x) doc \"# Top doc.\\n# More.\" 20-21",
            "class Outer doc \"# Module doc.\" [\"module\"] 6-16",
            "  helper() method 15-15",
            "class Inner bases [\"< Base\"] doc \"# Inner doc.\" 8-14",
            "  run(a, b, *rest, key, **opts, &blk) method 9-10",
            "  make() method [\"self\"] 12-13",
            "constant MAX = 3 static constant 3-3",
        ]
    );
}

#[test]
fn php_files() {
    let source = r#"<?php
namespace App;
use Foo\Bar;
use Foo\{Baz, Qux as Q};
require_once 'a.php';
include("b.php");
const LIMIT = 3;
define('NAME', "v");

/** Doc. */
function top(int $a, ...$rest): ?string { return null; }

// Class doc
abstract class Shape extends Base implements Draw, Other {
    public function __construct(private int $x, $y = 1) {}
    protected static function make(): self { return new self(); }
}
interface Draw { function draw(); }
trait Helps { private function help() {} }
"#;
    assert_eq!(
        report(".php", source),
        vec![
            "import Foo\\Bar from 3",
            "import Foo\\Baz from 4",
            "import Foo\\Qux from as Q 4",
            "import a.php from as once 5",
            "import b.php plain 6",
            "function top($a, $rest) -> ?string doc \"/** Doc. */\" 11-11",
            "class Shape bases [\"Base\", \"Draw\", \"Other\"] doc \"// Class doc\" 14-17",
            "  __construct($x, $y) method [\"public\"] 15-15",
            "  make() -> self method [\"protected\", \"static\"] 16-16",
            "class Draw [\"interface\"] 18-18",
            "  draw() method 18-18",
            "class Helps [\"trait\"] 19-19",
            "  help() method [\"private\"] 19-19",
            "constant LIMIT = 3 static constant 7-7",
            "constant NAME = \"v\" static constant 8-8",
        ]
    );
}

#[test]
fn csharp_files() {
    let source = r#"using System;
using static System.Math;
using Alias = System.Text;

const int LIMIT = 3;

namespace App {
    /// <summary>Doc</summary>
    [Serializable]
    public class Shape : Base, IDraw<int> {
        [Test]
        public async Task<int> Run(int a, ref string b) { return 1; }
        private Shape() { }
    }
    struct Pt { internal int Get() { return 1; } }
    interface IDraw { void Draw(); }
}
"#;
    assert_eq!(
        report(".cs", source),
        vec![
            "import System plain 1",
            "import System.Math from 2",
            "import System.Text plain as Alias 3",
            "function Run(a, b) method async public 12-12",
            "function Shape() method private 13-13",
            "function Get() method internal 15-15",
            "function Draw() method 16-16",
            "class Shape bases [\"Base\", \"IDraw<int>\"] doc \"<summary>Doc</summary>\" 10-14",
            "  Run(a, b) method async public 12-12",
            "  Shape() method private 13-13",
            "class Pt 15-15",
            "  Get() method internal 15-15",
            "class IDraw 16-16",
            "  Draw() method 16-16",
            "constant LIMIT: int = 3 static constant 5-5",
        ]
    );
}

#[test]
fn kotlin_files() {
    let source = r#"import a.b.C
import a.b.D as E
import a.b.*

const val MAX = 3
val other = 1
val UPPER = 2

object Single : Other {
    fun go() {}
}

interface Draw {
    fun draw()
}

fun top(p: List<Int>): String = "a"

class Plain : Base() {
    internal fun other() {}
}
/** Doc. */
open class Shape(val x: Int, y: String) : Base(x), Draw {
    /** Runs. */
    @Anno
    private suspend fun run(a: Int, vararg b: String): Int? { return 1 }
    companion object {
        fun make() {}
    }
}
"#;
    assert_eq!(
        report(".kt", source),
        vec![
            "import a.b.C 1",
            "import a.b.D as E 2",
            "import a.b.* 3",
            "function top(p) -> String 17-17",
            "class Single 9-11",
            "  go() method 10-10",
            "class Draw 13-15",
            "  draw() method 14-14",
            "class Plain bases [\"Base\"] 19-21",
            "  other() method internal 20-20",
            "class Shape bases [\"Base\"] 23-30",
            "  run(a, b) -> Int? method async [\"Anno\"] private 26-26",
            "  make() method 28-28",
            "constant MAX = 3 static constant 5-5",
            "constant UPPER = 2 static constant 7-7",
        ]
    );
}

#[test]
fn scala_files() {
    let source = r#"package a
import a.b.C
import a.b.{D, E => F, _}
import x._

/** Doc. */
class Shape(x: Int) extends Base(x) with Draw {
  private def area(s: Double)(implicit t: Int): Double = 1.0
  def run = 2
}
object Single extends Other { def go(): Unit = {} }
trait Draw { def draw(a: Int): Unit }
val MAX_SIZE = 10
def top(p: String): Int = 1
"#;
    assert_eq!(
        report(".scala", source),
        vec![
            "import a.b.C plain 2",
            "import a.b.D plain 3",
            "import a.b.E plain as F 3",
            "import a.b [\"*\"] from 3",
            "import x [\"*\"] from 4",
            "function top(p) -> Int 14-14",
            "class Shape bases [\"Base\", \"Draw\"] doc \"/** Doc. */\" 7-10",
            "  area(s, t) -> Double method 8-8",
            "  run() method 9-9",
            "class Single bases [\"Other\"] 11-11",
            "  go() -> Unit method 11-11",
            "class Draw 12-12",
            "  draw(a) -> Unit method 12-12",
            "constant MAX_SIZE = 10 static constant 13-13",
        ]
    );
}

#[test]
fn elixir_files() {
    let source = r#"defmodule A.B do
  @moduledoc """
  Module doc.
  """
  import Enum
  alias A.{C, D}
  alias Long.Name, as: N
  use GenServer
  require Logger

  @doc "Runs."
  def run(a, %{b: c} = d, e \\ 1) when a > 1 do
    :ok
  end

  defp hidden, do: 1

  defmodule Inner do
    def go(x), do: x
  end
end
"#;
    assert_eq!(
        report(".ex", source),
        vec![
            "import Enum [\"*\"] from 5",
            "import A.C plain as C 6",
            "import A.D plain as D 6",
            "import Long.Name plain as N 7",
            "import GenServer [\"*\"] from 8",
            "import Logger plain 9",
            "function run(a, d, e) doc \"\\\"Runs.\\\"\" 12-14",
            "function hidden() 16-16",
            "function go(x) 19-19",
            "class A.B doc \"\\\"\\\"\\\"\\n  Module doc.\\n  \\\"\\\"\\\"\" 1-21",
            "  run(a, d, e) doc \"\\\"Runs.\\\"\" 12-14",
            "  hidden() 16-16",
        ]
    );
}

#[test]
fn lua_files() {
    let source = r#"local M = {}
M.__index = M
M.version = "1"
MAX_SIZE = 3
local json = require("json")

-- Makes one.
function M.new(a, ...)
  local self = setmetatable({}, M)
  self.value = a
  return self
end

function M:get() return self.value end

local function helper(x) return x end
local f = function(y) return y end
M.bare = function(z) return z end
function top() end
return M
"#;
    assert_eq!(
        report(".lua", source),
        vec![
            "import json 5",
            "function helper(x) 16-16",
            "function f(y) 17-17",
            "function bare(z) 18-18",
            "function top() 19-19",
            "class M kind table 1-18",
            "  new(a, ...) doc \"Makes one.\" method [\"static\"] 8-12",
            "  get() method [\"method\"] 14-14",
            "  field value 10-10",
            "  field version = \"1\" static 3-3",
            "constant M = {} static constant 1-1",
            "constant MAX_SIZE = 3 static constant 4-4",
        ]
    );
}

#[test]
fn luau_files() {
    let source = r#"--!strict
local M = {}
-- Adds.
function M.add(a: number, b: string): number
  return a
end
local function helper(x: number?): string
  return ""
end
local g = function(y: string): number return 1 end
return M
"#;
    assert_eq!(
        report(".luau", source),
        vec![
            "function helper(x) -> string 7-9",
            "function g(y) -> number 10-10",
            "class M kind table 2-6",
            "  add(a, b) -> number doc \"Adds.\" method [\"static\"] 4-6",
            "constant M = {} static constant 2-2",
        ]
    );
}

#[test]
fn swift_files() {
    let source = r#"import Foundation
import class UIKit.View
@testable import App

let MAX_SIZE = 10

/// Doc line.
/// More.
@objc public class Shape: Base, Draw {
    private func run(_ a: Int, with b: String = "x") async throws -> Int? { return 1 }
    init(x: Int) {}
}
struct Pt { func get() -> Int { return 1 } }
protocol Draw { func draw() }
enum Kind: String { case a }
extension Shape { func more() {} }
func top(p: [Int]) -> String { return "" }
"#;
    assert_eq!(
        report(".swift", source),
        vec![
            "import Foundation 1",
            "import UIKit.View 2",
            "import App 3",
            "function top() -> String 17-17",
            "class Shape doc \"Doc line.\\nMore.\" 9-12",
            "  run() -> Int? method async private 10-10",
            "class Pt 13-13",
            "  get() -> Int method 13-13",
            "class Kind 15-15",
            "class Shape 16-16",
            "  more() method 16-16",
            "constant MAX_SIZE = 10 static constant 5-5",
        ]
    );
}

#[test]
fn ocaml_files() {
    let source = r#"open Printf
include Base
module L = List.Map
let max_size = 10
let MAX = 3

(** Adds. *)
let add (x : int) y : int = List.length x + y
let rec even n = odd n
and odd n = even n
let go = function 1 -> 2 | _ -> 3
let k = fun a b -> a
let inner = let z q = q in z 1
"#;
    assert_eq!(
        report(".ml", source),
        vec![
            "import Printf [\"*\"] from 1",
            "import Base [\"*\"] from 2",
            "import List.Map plain as L 3",
            "import List [\"length\"] plain 8",
            "function add(x, y) -> int doc \"Adds.\" 8-8",
            "function even(n) 9-10",
            "function odd(n) 9-10",
            "function go() 11-11",
            "function k() 12-12",
            "constant MAX = 3 static constant 5-5",
        ]
    );
}

#[test]
fn solidity_files() {
    let source = r#"// SPDX-License-Identifier: MIT
pragma solidity ^0.8.0;
import "./A.sol";
import {X, Y as Z} from "./B.sol";
import * as Lib from "./C.sol";
import "./D.sol" as D;

uint constant LIMIT = 3;

/// @title Token
/// @notice Does things
abstract contract Token is Base, Other(1) {
    uint256 public total;
    address immutable owner;
    string constant NAME = "n";
    mapping(address => uint) private balances;


    constructor(uint a) Base(a) {}
    /// Runs it.
    function run(uint a, string memory b) external payable override only(a) returns (uint, bool ok) { return (1, true); }
    function view_it() public view virtual;
    receive() external payable {}
    fallback() external {}
}
interface I { function f() external; }
library L { function g(uint x) internal pure returns (uint) { return x; } }
function free(uint q) pure returns (uint) { return q; }
"#;
    assert_eq!(
        report(".sol", source),
        vec![
            "import ./A.sol 3",
            "import ./B.sol [\"X\", \"Y as Z\"] 4",
            "import ./C.sol as Lib 5",
            "import ./D.sol as D 6",
            "function free(q) -> uint pure 28-28",
            "class Token bases [\"Base\", \"Other\"] doc \"@title Token\\n@notice Does things\" kind contract 12-25",
            "  constructor(a) method [\"Base\"] 19-19",
            "  run(a, b) -> (uint, bool) doc \"Runs it.\" method [\"only\"] external payable 21-21",
            "  view_it() method public view 22-22",
            "  receive() method external payable 23-23",
            "  fallback() method external 24-24",
            "  field total: uint256 public 13-13",
            "  field owner: address constant 14-14",
            "  field NAME: string = \"n\" 15-15",
            "  field balances: mapping(address => uint) private 16-16",
            "class I kind interface 26-26",
            "  f() method external 26-26",
            "class L kind library 27-27",
            "  g(x) -> uint method internal pure 27-27",
            "constant LIMIT: uint = 3 static constant 8-8",
        ]
    );
}
