# dbgen

The verified logic of two command line programs:

* `dbgen` fills a table with random rows and writes them as SQL or CSV files.
* `dbschemagen` prints a shell script of `dbgen` invocations for tables with random columns and
  indexes.

`src/` is the library. Every function in it states what it computes and is proved by Verus; calls
into other crates stand behind small functions whose contracts are believed.

| Module | What it holds |
| --- | --- |
| `cli` | the arguments of `dbgen`, and the plan of a run: its files, row numbers and generators |
| `output` | file names, and the steps that write a data file |
| `progress` | counting bytes, and estimating the size at the end |
| `rng`, `seed` | the random number generators, and the seed that makes a run repeatable |
| `format`, `names` | output and compression formats, and how things are chosen by name |
| `timestamp` | the point in time that a run takes as now |
| `schemagen_cli` | the arguments of `dbschemagen`, and the script it prints |
| `columns`, `indexes` | random columns and indexes, and the `CREATE TABLE` statement made of them |
| `draws`, `shell`, `decimal` | random draws, quoted shell words, and numbers in decimal digits |

`app/` holds the drivers around it: argument parsing, files, threads, progress bars, and the
floating point estimates of column sizes. It leaves parsing and evaluating templates to an `Engine`.
